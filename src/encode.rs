//! Writes the response shapes back as JSON trees.
//!
//! Each writer produces a tree that reads back as the value it was given,
//! with a member for every field that is present and none for an absent one.
use vstd::prelude::*;
use crate::decode::{
    has_error_key, args_distinct, candidate_wf, chunk_wf, declaration_wf, part_wf, parts_wf,
    properties_distinct, tools_wf,
    property_is, reads_count_tokens_request, reads_declaration, reads_parameters, reads_property,
    reads_request_content, reads_strings, reads_tools, str_is,
    arg_is, field, reads_args, reads_candidate, reads_candidates, reads_chunk, reads_citation,
    reads_citation_metadata, reads_citations, reads_content, reads_error, reads_error_details,
    reads_part, reads_parts, reads_safety_rating, reads_safety_ratings, reads_usage_metadata,
};
use crate::json::{array_value, items_tree, lookup, member, members_tree, object_value, JsonTree, JsonValue};
use crate::types::{
    CountTokensRequest, FunctionDeclaration, FunctionParameters, FunctionParametersProperty,
    RequestContent, Tools,
    Candidate, Citation, CitationMetadata, Content, GenerateContentResponseChunk,
    GenerateContentResponseError, Part, SafetyRating, UsageMetadata,
};

verus! {

broadcast use {
    crate::json::lemma_items_tree,
    crate::json::lemma_members_tree,
    crate::json::lemma_items_len,
    crate::json::lemma_members_len,
};

/// What appending one member does to a lookup.
proof fn lemma_lookup_push(m: Seq<(Seq<char>, JsonTree)>, k: Seq<char>, v: JsonTree, key: Seq<char>)
    ensures
        lookup(m.push((k, v)), key) == if lookup(m, key) is Some {
            lookup(m, key)
        } else if k == key {
            Some(v)
        } else {
            None
        },
    decreases m.len(),
{
    let n = m.push((k, v));
    if m.len() > 0 {
        assert(n.drop_first() =~= m.drop_first().push((k, v)));
        assert(n[0] == m[0]);
        lemma_lookup_push(m.drop_first(), k, v, key);
    } else {
        assert(n.drop_first() =~= Seq::<(Seq<char>, JsonTree)>::empty());
        assert(n[0] == (k, v));
        assert(lookup(n.drop_first(), key) is None);
    }
}

/// Appends the member `key: v`.
fn put(m: &mut Vec<(String, JsonValue)>, key: &str, v: JsonValue)
    ensures
        forall|k: Seq<char>| #[trigger] lookup(members_tree(final(m)@), k) == if lookup(members_tree(old(m)@), k) is Some {
            lookup(members_tree(old(m)@), k)
        } else if k == key@ {
            Some(v@)
        } else {
            None
        },
{
    let ghost before = m@;
    let ghost tree = v@;
    let name = key.to_owned();
    m.push((name, v));
    assert(members_tree(m@) =~= members_tree(before).push((key@, tree)));
    assert forall|k: Seq<char>| #[trigger] lookup(members_tree(m@), k) == if lookup(members_tree(before), k) is Some {
        lookup(members_tree(before), k)
    } else if k == key@ {
        Some(tree)
    } else {
        None
    } by {
        lemma_lookup_push(members_tree(before), key@, tree, k);
    }
}

fn empty_members() -> (r: Vec<(String, JsonValue)>)
    ensures
        forall|k: Seq<char>| #[trigger] lookup(members_tree(r@), k) is None,
{
    let r: Vec<(String, JsonValue)> = Vec::new();
    assert(members_tree(r@).len() == 0);
    r
}

fn text_value(s: &String) -> (r: JsonValue)
    ensures
        r@ == JsonTree::Str(s@),
{
    JsonValue::Str(s.clone())
}

/// Member names that the writers put side by side differ.
proof fn lemma_names_distinct()
    ensures
        "category"@ != "probability"@,
        "endIndex"@ != "license"@,
        "endIndex"@ != "startIndex"@,
        "endIndex"@ != "uri"@,
        "license"@ != "startIndex"@,
        "license"@ != "uri"@,
        "startIndex"@ != "uri"@,
        "candidatesTokenCount"@ != "promptTokenCount"@,
        "candidatesTokenCount"@ != "totalTokenCount"@,
        "promptTokenCount"@ != "totalTokenCount"@,
        "mimeType"@ != "data"@,
        "mimeType"@ != "fileUri"@,
        "name"@ != "args"@,
        "role"@ != "parts"@,
        "content"@ != "citationMetadata"@,
        "content"@ != "safetyRatings"@,
        "content"@ != "finishReason"@,
        "citationMetadata"@ != "safetyRatings"@,
        "citationMetadata"@ != "finishReason"@,
        "safetyRatings"@ != "finishReason"@,
        "candidates"@ != "usageMetadata"@,
        "code"@ != "message"@,
        "code"@ != "status"@,
        "message"@ != "status"@,
        "type"@ != "description"@,
        "type"@ != "properties"@,
        "type"@ != "required"@,
        "properties"@ != "required"@,
        "name"@ != "description"@,
        "name"@ != "parameters"@,
        "description"@ != "parameters"@,
        "error"@ != "candidates"@,
        "error"@ != "usageMetadata"@,
{
    reveal_strlit("error");
    reveal_strlit("candidates");
    reveal_strlit("usageMetadata");
    assert("error"@.len() != "candidates"@.len());
    assert("error"@.len() != "usageMetadata"@.len());
    reveal_strlit("type");
    reveal_strlit("description");
    reveal_strlit("properties");
    reveal_strlit("required");
    reveal_strlit("parameters");
    reveal_strlit("name");
    assert("type"@.len() != "description"@.len());
    assert("type"@.len() != "properties"@.len());
    assert("type"@.len() != "required"@.len());
    assert("properties"@.len() != "required"@.len());
    assert("name"@.len() != "description"@.len());
    assert("name"@.len() != "parameters"@.len());
    assert("description"@[0] != "parameters"@[0]);
    reveal_strlit("category");
    reveal_strlit("probability");
    reveal_strlit("endIndex");
    reveal_strlit("license");
    reveal_strlit("startIndex");
    reveal_strlit("uri");
    reveal_strlit("candidatesTokenCount");
    reveal_strlit("promptTokenCount");
    reveal_strlit("totalTokenCount");
    reveal_strlit("mimeType");
    reveal_strlit("data");
    reveal_strlit("fileUri");
    reveal_strlit("name");
    reveal_strlit("args");
    reveal_strlit("role");
    reveal_strlit("parts");
    reveal_strlit("content");
    reveal_strlit("citationMetadata");
    reveal_strlit("safetyRatings");
    reveal_strlit("finishReason");
    reveal_strlit("candidates");
    reveal_strlit("usageMetadata");
    reveal_strlit("code");
    reveal_strlit("message");
    reveal_strlit("status");
    assert("name"@[0] != "args"@[0]);
    assert("code"@.len() != "message"@.len());
    assert("category"@.len() != "probability"@.len());
    assert("endIndex"@.len() != "license"@.len());
    assert("endIndex"@.len() != "startIndex"@.len());
    assert("endIndex"@.len() != "uri"@.len());
    assert("license"@.len() != "startIndex"@.len());
    assert("license"@.len() != "uri"@.len());
    assert("startIndex"@.len() != "uri"@.len());
    assert("candidatesTokenCount"@.len() != "promptTokenCount"@.len());
    assert("candidatesTokenCount"@.len() != "totalTokenCount"@.len());
    assert("promptTokenCount"@.len() != "totalTokenCount"@.len());
    assert("mimeType"@.len() != "data"@.len());
    assert("mimeType"@.len() != "fileUri"@.len());
    assert("role"@.len() != "parts"@.len());
    assert("content"@.len() != "citationMetadata"@.len());
    assert("content"@.len() != "safetyRatings"@.len());
    assert("content"@.len() != "finishReason"@.len());
    assert("citationMetadata"@.len() != "safetyRatings"@.len());
    assert("citationMetadata"@.len() != "finishReason"@.len());
    assert("safetyRatings"@.len() != "finishReason"@.len());
    assert("candidates"@.len() != "usageMetadata"@.len());
    assert("code"@.len() != "status"@.len());
    assert("message"@.len() != "status"@.len());
}

pub fn write_safety_rating(r: &SafetyRating) -> (v: JsonValue)
    ensures
        reads_safety_rating(v@, *r),
        forall|k: Seq<char>| #[trigger] member(v@, k) is Some ==> k == "category"@ || k == "probability"@,
{
    proof {
        lemma_names_distinct();
    }
    let mut m = empty_members();
    put(&mut m, "category", text_value(&r.category));
    put(&mut m, "probability", text_value(&r.probability));
    object_value(m)
}

pub fn write_safety_ratings(rs: &Vec<SafetyRating>) -> (v: JsonValue)
    ensures
        reads_safety_ratings(v@, rs@),
{
    let mut out: Vec<JsonValue> = Vec::new();
    let mut i: usize = 0;
    while i < rs.len()
        invariant
            i <= rs@.len(),
            out@.len() == i,
            forall|j: int| 0 <= j < i ==> #[trigger] reads_safety_rating(out@[j]@, rs@[j]),
        decreases rs@.len() - i,
    {
        out.push(write_safety_rating(&rs[i]));
        i = i + 1;
    }
    array_value(out)
}

pub fn write_citation(c: &Citation) -> (v: JsonValue)
    ensures
        reads_citation(v@, *c),
        forall|k: Seq<char>| #[trigger] member(v@, k) is Some ==> k == "endIndex"@ || k == "license"@ || k == "startIndex"@ || k == "uri"@,
{
    proof {
        lemma_names_distinct();
    }
    let mut m = empty_members();
    put(&mut m, "endIndex", JsonValue::Int(c.end_index as i64));
    put(&mut m, "license", text_value(&c.license));
    put(&mut m, "startIndex", JsonValue::Int(c.start_index as i64));
    put(&mut m, "uri", text_value(&c.uri));
    object_value(m)
}

pub fn write_citation_metadata(c: &CitationMetadata) -> (v: JsonValue)
    ensures
        reads_citation_metadata(v@, *c),
        forall|k: Seq<char>| #[trigger] member(v@, k) is Some ==> k == "citationSources"@,
{
    let cs = &c.citation_sources;
    let mut out: Vec<JsonValue> = Vec::new();
    let mut i: usize = 0;
    while i < cs.len()
        invariant
            i <= cs@.len(),
            out@.len() == i,
            forall|j: int| 0 <= j < i ==> #[trigger] reads_citation(out@[j]@, cs@[j]),
        decreases cs@.len() - i,
    {
        out.push(write_citation(&cs[i]));
        i = i + 1;
    }
    assert(reads_citations(JsonTree::Array(items_tree(out@)), cs@));
    let mut m = empty_members();
    put(&mut m, "citationSources", array_value(out));
    object_value(m)
}

pub fn write_usage_metadata(u: &UsageMetadata) -> (v: JsonValue)
    ensures
        reads_usage_metadata(v@, *u),
        forall|k: Seq<char>| #[trigger] member(v@, k) is Some ==> k == "candidatesTokenCount"@ || k == "promptTokenCount"@ || k == "totalTokenCount"@,
{
    proof {
        lemma_names_distinct();
    }
    let mut m = empty_members();
    match u.candidates_token_count {
        Some(n) => put(&mut m, "candidatesTokenCount", JsonValue::Int(n as i64)),
        None => {},
    }
    put(&mut m, "promptTokenCount", JsonValue::Int(u.prompt_token_count as i64));
    put(&mut m, "totalTokenCount", JsonValue::Int(u.total_token_count as i64));
    object_value(m)
}

fn write_args(args: &Vec<(String, String)>) -> (v: JsonValue)
    ensures
        args_distinct(args@) ==> reads_args(v@, args@),
{
    let mut out: Vec<(String, JsonValue)> = Vec::new();
    let mut i: usize = 0;
    while i < args.len()
        invariant
            i <= args@.len(),
            out@.len() == i,
            forall|j: int| 0 <= j < i ==> #[trigger] arg_is((out@[j].0@, out@[j].1@), args@[j]),
        decreases args@.len() - i,
    {
        out.push((args[i].0.clone(), text_value(&args[i].1)));
        i = i + 1;
    }
    let ghost t = members_tree(out@);
    assert forall|a: int, b: int| 0 <= a < b < t.len() && args_distinct(args@) implies #[trigger] t[a].0 != #[trigger] t[b].0 by {
        assert(arg_is((out@[a].0@, out@[a].1@), args@[a]));
        assert(arg_is((out@[b].0@, out@[b].1@), args@[b]));
    }
    object_value(out)
}

pub fn write_part(p: &Part) -> (v: JsonValue)
    ensures
        part_wf(*p) ==> reads_part(v@, *p),
{
    proof {
        lemma_names_distinct();
    }
    let (key, value) = match p {
        Part::Text(s) => ("text", text_value(s)),
        Part::InlineData { mime_type, data } => {
            let mut n = empty_members();
            put(&mut n, "mimeType", text_value(mime_type));
            put(&mut n, "data", text_value(data));
            ("inlineData", object_value(n))
        },
        Part::FileData { mime_type, file_uri } => {
            let mut n = empty_members();
            put(&mut n, "mimeType", text_value(mime_type));
            put(&mut n, "fileUri", text_value(file_uri));
            ("fileData", object_value(n))
        },
        Part::FunctionCall { name, args } => {
            let mut n = empty_members();
            put(&mut n, "name", text_value(name));
            put(&mut n, "args", write_args(args));
            ("functionCall", object_value(n))
        },
    };
    let mut m: Vec<(String, JsonValue)> = Vec::new();
    m.push((key.to_owned(), value));
    object_value(m)
}

pub fn write_content(c: &Content) -> (v: JsonValue)
    ensures
        parts_wf(c.parts@) ==> reads_content(v@, *c),
        forall|k: Seq<char>| #[trigger] member(v@, k) is Some ==> k == "role"@ || k == "parts"@,
{
    proof {
        lemma_names_distinct();
    }
    let ps = &c.parts;
    let mut out: Vec<JsonValue> = Vec::new();
    let mut i: usize = 0;
    while i < ps.len()
        invariant
            i <= ps@.len(),
            out@.len() == i,
            forall|j: int| 0 <= j < i ==> part_wf(ps@[j]) ==> #[trigger] reads_part(out@[j]@, ps@[j]),
        decreases ps@.len() - i,
    {
        out.push(write_part(&ps[i]));
        i = i + 1;
    }

    let mut m = empty_members();
    put(&mut m, "role", text_value(&c.role));
    put(&mut m, "parts", array_value(out));
    object_value(m)
}

pub fn write_candidate(c: &Candidate) -> (v: JsonValue)
    ensures
        candidate_wf(*c) ==> reads_candidate(v@, *c),
        forall|k: Seq<char>| #[trigger] member(v@, k) is Some ==> k == "content"@ || k == "citationMetadata"@ || k == "safetyRatings"@ || k == "finishReason"@,
{
    proof {
        lemma_names_distinct();
    }
    let mut m = empty_members();
    match &c.content {
        Some(x) => put(&mut m, "content", write_content(x)),
        None => {},
    }
    match &c.citation_metadata {
        Some(x) => put(&mut m, "citationMetadata", write_citation_metadata(x)),
        None => {},
    }
    match &c.safety_ratings {
        Some(x) => put(&mut m, "safetyRatings", write_safety_ratings(x)),
        None => {},
    }
    match &c.finish_reason {
        Some(x) => put(&mut m, "finishReason", text_value(x)),
        None => {},
    }
    object_value(m)
}

/// Writes a chunk as the JSON tree it is read from.
pub fn write_chunk(c: &GenerateContentResponseChunk) -> (v: JsonValue)
    ensures
        chunk_wf(*c) ==> reads_chunk(v@, *c),
        forall|k: Seq<char>| #[trigger] member(v@, k) is Some ==> k == "candidates"@ || k == "usageMetadata"@,
        !has_error_key(v@),
{
    proof {
        lemma_names_distinct();
    }
    let cs = &c.candidates;
    let mut out: Vec<JsonValue> = Vec::new();
    let mut i: usize = 0;
    while i < cs.len()
        invariant
            i <= cs@.len(),
            out@.len() == i,
            forall|j: int| 0 <= j < i ==> candidate_wf(cs@[j]) ==> #[trigger] reads_candidate(out@[j]@, cs@[j]),
        decreases cs@.len() - i,
    {
        out.push(write_candidate(&cs[i]));
        i = i + 1;
    }

    let mut m = empty_members();
    put(&mut m, "candidates", array_value(out));
    match &c.usage_metadata {
        Some(u) => put(&mut m, "usageMetadata", write_usage_metadata(u)),
        None => {},
    }
    object_value(m)
}

/// Writes a service error as the JSON tree it is read from.
pub fn write_error(e: &GenerateContentResponseError) -> (v: JsonValue)
    ensures
        reads_error(v@, *e),
        forall|k: Seq<char>| #[trigger] member(v@, k) is Some ==> k == "error"@,
{
    proof {
        lemma_names_distinct();
    }
    let mut n = empty_members();
    put(&mut n, "code", JsonValue::Int(e.error.code as i64));
    put(&mut n, "message", text_value(&e.error.message));
    put(&mut n, "status", text_value(&e.error.status));
    assert(reads_error_details(JsonTree::Object(members_tree(n@)), e.error));
    let mut m = empty_members();
    put(&mut m, "error", object_value(n));
    object_value(m)
}

/// `v` is an object with a non-null member `key`.
pub open spec fn present(v: JsonTree, key: Seq<char>) -> bool {
    match v {
        JsonTree::Object(m) => field(m, key) is Some,
        _ => false,
    }
}

/// The value of member `key` of `v`, where it is present.
pub open spec fn member_value(v: JsonTree, key: Seq<char>) -> JsonTree {
    match v {
        JsonTree::Object(m) => field(m, key)->0,
        _ => JsonTree::Null,
    }
}

/// The candidate values of a chunk's tree.
pub open spec fn candidate_values(v: JsonTree) -> Seq<JsonTree> {
    match member_value(v, "candidates"@) {
        JsonTree::Array(items) => items,
        _ => seq![],
    }
}

/// Two chunk trees carry the same optional members, at every level where
/// the chunk shape has one.
pub open spec fn same_optional_members(v: JsonTree, w: JsonTree) -> bool {
    &&& present(v, "usageMetadata"@) == present(w, "usageMetadata"@)
    &&& present(member_value(v, "usageMetadata"@), "candidatesTokenCount"@)
        == present(member_value(w, "usageMetadata"@), "candidatesTokenCount"@)
    &&& candidate_values(v).len() == candidate_values(w).len()
    &&& forall|i: int| 0 <= i < candidate_values(v).len() ==> {
        &&& present(#[trigger] candidate_values(v)[i], "content"@) == present(candidate_values(w)[i], "content"@)
        &&& present(candidate_values(v)[i], "citationMetadata"@) == present(candidate_values(w)[i], "citationMetadata"@)
        &&& present(candidate_values(v)[i], "safetyRatings"@) == present(candidate_values(w)[i], "safetyRatings"@)
        &&& present(candidate_values(v)[i], "finishReason"@) == present(candidate_values(w)[i], "finishReason"@)
    }
}

/// Reading a chunk and writing it back keeps every member of the tree it was
/// read from: any two trees that read as the same chunk have the same
/// optional members (the required ones are in both by definition). What
/// [`write_chunk`] writes reads as the chunk it was given, which for a chunk
/// read from a tree holds by `lemma_read_chunk_wf`.
pub proof fn lemma_round_trip_keeps_members(v: JsonTree, c: GenerateContentResponseChunk, w: JsonTree)
    requires
        reads_chunk(v, c),
        reads_chunk(w, c),
    ensures
        same_optional_members(v, w),
{
    let cv = candidate_values(v);
    let cw = candidate_values(w);
    assert forall|i: int| 0 <= i < cv.len() implies {
        &&& present(#[trigger] cv[i], "content"@) == present(cw[i], "content"@)
        &&& present(cv[i], "citationMetadata"@) == present(cw[i], "citationMetadata"@)
        &&& present(cv[i], "safetyRatings"@) == present(cw[i], "safetyRatings"@)
        &&& present(cv[i], "finishReason"@) == present(cw[i], "finishReason"@)
    } by {
        assert(reads_candidate(cv[i], c.candidates@[i]));
        assert(reads_candidate(cw[i], c.candidates@[i]));
    }
}

/// Writes the parts of some content as a JSON array.
fn write_parts(ps: &Vec<Part>) -> (v: JsonValue)
    ensures
        parts_wf(ps@) ==> reads_parts(v@, ps@),
{
    let mut out: Vec<JsonValue> = Vec::new();
    let mut i: usize = 0;
    while i < ps.len()
        invariant
            i <= ps@.len(),
            out@.len() == i,
            forall|j: int| 0 <= j < i ==> part_wf(ps@[j]) ==> #[trigger] reads_part(out@[j]@, ps@[j]),
        decreases ps@.len() - i,
    {
        out.push(write_part(&ps[i]));
        i = i + 1;
    }
    array_value(out)
}

/// Writes content to be sent; an absent role is left out.
pub fn write_request_content(c: &RequestContent) -> (v: JsonValue)
    ensures
        parts_wf(c.parts@) ==> reads_request_content(v@, *c),
        forall|k: Seq<char>| #[trigger] member(v@, k) is Some ==> k == "role"@ || k == "parts"@,
{
    proof {
        lemma_names_distinct();
    }
    let mut m = empty_members();
    match &c.role {
        Some(role) => put(&mut m, "role", text_value(role)),
        None => {},
    }
    put(&mut m, "parts", write_parts(&c.parts));
    object_value(m)
}

pub fn write_count_tokens_request(r: &CountTokensRequest) -> (v: JsonValue)
    ensures
        parts_wf(r.contents.parts@) ==> reads_count_tokens_request(v@, *r),
        forall|k: Seq<char>| #[trigger] member(v@, k) is Some ==> k == "contents"@,
{
    let mut m = empty_members();
    put(&mut m, "contents", write_content(&r.contents));
    object_value(m)
}

fn write_property(p: &FunctionParametersProperty) -> (v: JsonValue)
    ensures
        reads_property(v@, *p),
{
    proof {
        lemma_names_distinct();
    }
    let mut m = empty_members();
    put(&mut m, "type", text_value(&p.kind));
    put(&mut m, "description", text_value(&p.description));
    object_value(m)
}

fn write_parameters(p: &FunctionParameters) -> (v: JsonValue)
    ensures
        properties_distinct(p.properties@) ==> reads_parameters(v@, *p),
{
    proof {
        lemma_names_distinct();
    }
    let props = &p.properties;
    let mut n: Vec<(String, JsonValue)> = Vec::new();
    let mut i: usize = 0;
    while i < props.len()
        invariant
            i <= props@.len(),
            n@.len() == i,
            forall|j: int| 0 <= j < i ==> #[trigger] property_is((n@[j].0@, n@[j].1@), props@[j]),
        decreases props@.len() - i,
    {
        n.push((props[i].0.clone(), write_property(&props[i].1)));
        i = i + 1;
    }
    let req = &p.required;
    let mut names: Vec<JsonValue> = Vec::new();
    let mut k: usize = 0;
    while k < req.len()
        invariant
            k <= req@.len(),
            names@.len() == k,
            forall|j: int| 0 <= j < k ==> #[trigger] str_is(names@[j]@, req@[j]),
        decreases req@.len() - k,
    {
        names.push(text_value(&req[k]));
        k = k + 1;
    }
    assert(reads_strings(JsonTree::Array(items_tree(names@)), req@));
    let ghost t = members_tree(n@);
    assert forall|a: int, b: int| 0 <= a < b < t.len() && properties_distinct(props@) implies #[trigger] t[a].0 != #[trigger] t[b].0 by {
        assert(property_is((n@[a].0@, n@[a].1@), props@[a]));
        assert(property_is((n@[b].0@, n@[b].1@), props@[b]));
    }
    let mut m = empty_members();
    put(&mut m, "type", text_value(&p.kind));
    put(&mut m, "properties", object_value(n));
    put(&mut m, "required", array_value(names));
    object_value(m)
}

pub fn write_declaration(d: &FunctionDeclaration) -> (v: JsonValue)
    ensures
        declaration_wf(*d) ==> reads_declaration(v@, *d),
        forall|k: Seq<char>| #[trigger] member(v@, k) is Some ==> k == "name"@ || k == "description"@ || k == "parameters"@,
{
    proof {
        lemma_names_distinct();
    }
    let mut m = empty_members();
    put(&mut m, "name", text_value(&d.name));
    put(&mut m, "description", text_value(&d.description));
    put(&mut m, "parameters", write_parameters(&d.parameters));
    object_value(m)
}

pub fn write_tools(t: &Tools) -> (v: JsonValue)
    ensures
        tools_wf(*t) ==> reads_tools(v@, *t),
        forall|k: Seq<char>| #[trigger] member(v@, k) is Some ==> k == "function_declarations"@,
{
    let mut m = empty_members();
    match &t.function_declarations {
        Some(ds) => {
            let mut out: Vec<JsonValue> = Vec::new();
            let mut i: usize = 0;
            while i < ds.len()
                invariant
                    i <= ds@.len(),
                    out@.len() == i,
                    forall|j: int| 0 <= j < i ==> declaration_wf(ds@[j]) ==> #[trigger] reads_declaration(out@[j]@, ds@[j]),
                decreases ds@.len() - i,
            {
                out.push(write_declaration(&ds[i]));
                i = i + 1;
            }
            put(&mut m, "function_declarations", array_value(out));
        },
        None => {},
    }
    object_value(m)
}

} // verus!
