//! The decisions of the client of the model-serving service: where each
//! request goes, which replies count as success, and what each failure says.
//! The requests themselves are sent by the caller.

use vstd::prelude::*;

verus! {

/// Seconds allowed to the reachability probe.
pub const PROBE_TIMEOUT_SECS: u64 = 3;

/// Seconds allowed to listing the models.
pub const LIST_TIMEOUT_SECS: u64 = 5;

/// Seconds allowed to an embedding request.
pub const EMBED_TIMEOUT_SECS: u64 = 30;

/// Seconds allowed to a generation request.
pub const GENERATE_TIMEOUT_SECS: u64 = 120;

/// The request that failed.
#[derive(Clone, Copy, Debug, PartialEq, Eq)]
pub enum Operation {
    ListModels,
    Embedding,
    Generation,
}

/// Why a request to the model service failed.
#[derive(Clone, Debug)]
pub enum AiError {
    /// The service could not be reached or timed out.
    Connection { op: Operation, detail: String },
    /// The service answered with a status other than success.
    Status { op: Operation, status: String },
    /// The reply body was not what was expected.
    Parse { op: Operation, detail: String },
    /// The service returned no embedding at all.
    EmptyResult,
}

pub open spec fn message_text(e: AiError) -> Seq<char> {
    match e {
        AiError::Connection { op, detail } => match op {
            Operation::ListModels => "Ollama connection failed: "@ + detail@,
            Operation::Embedding => "Ollama embedding request failed: "@ + detail@,
            Operation::Generation => "Ollama generation failed: "@ + detail@,
        },
        AiError::Status { op, status } => match op {
            Operation::ListModels => "Ollama returned status: "@ + status@,
            Operation::Embedding => "Ollama embedding returned status: "@ + status@,
            Operation::Generation => "Ollama generation returned status: "@ + status@,
        },
        AiError::Parse { op, detail } => match op {
            Operation::ListModels => "Failed to parse Ollama response: "@ + detail@,
            Operation::Embedding => "Failed to parse embedding response: "@ + detail@,
            Operation::Generation => "Failed to parse generation response: "@ + detail@,
        },
        AiError::EmptyResult => "No embedding returned"@,
    }
}

impl AiError {
    /// The message shown to the caller.
    pub fn message(&self) -> (r: String)
        ensures
            r@ == message_text(*self),
    {
        let (head, tail): (&str, &str) = match self {
            AiError::Connection { op, detail } => (
                match op {
                    Operation::ListModels => "Ollama connection failed: ",
                    Operation::Embedding => "Ollama embedding request failed: ",
                    Operation::Generation => "Ollama generation failed: ",
                },
                detail.as_str(),
            ),
            AiError::Status { op, status } => (
                match op {
                    Operation::ListModels => "Ollama returned status: ",
                    Operation::Embedding => "Ollama embedding returned status: ",
                    Operation::Generation => "Ollama generation returned status: ",
                },
                status.as_str(),
            ),
            AiError::Parse { op, detail } => (
                match op {
                    Operation::ListModels => "Failed to parse Ollama response: ",
                    Operation::Embedding => "Failed to parse embedding response: ",
                    Operation::Generation => "Failed to parse generation response: ",
                },
                detail.as_str(),
            ),
            AiError::EmptyResult => ("No embedding returned", ""),
        };
        let mut out = String::from_str(head);
        out.append(tail);
        proof {
            reveal_strlit("");
            assert(out@ =~= message_text(*self));
        }
        out
    }
}

fn endpoint(base_url: &str, path: &str) -> (r: String)
    ensures
        r@ == base_url@ + path@,
{
    let mut out = String::from_str(base_url);
    out.append(path);
    out
}

/// Where the list of models is asked for.
pub fn tags_url(base_url: &str) -> (r: String)
    ensures
        r@ == base_url@ + "/api/tags"@,
{
    endpoint(base_url, "/api/tags")
}

/// Where embeddings are asked for.
pub fn embed_url(base_url: &str) -> (r: String)
    ensures
        r@ == base_url@ + "/api/embed"@,
{
    endpoint(base_url, "/api/embed")
}

/// Where completions are asked for.
pub fn generate_url(base_url: &str) -> (r: String)
    ensures
        r@ == base_url@ + "/api/generate"@,
{
    endpoint(base_url, "/api/generate")
}

/// An HTTP status in the success class.
pub open spec fn is_success_status(status: u16) -> bool {
    200 <= status < 300
}

/// Whether a reply with this HTTP status is a success.
pub fn is_success(status: u16) -> (r: bool)
    ensures
        r == is_success_status(status),
{
    200 <= status && status < 300
}

/// The outcome of the reachability probe: `status` is the HTTP status of the
/// reply, or `None` when no reply came. Only a successful reply counts as
/// reachable; the probe never fails.
pub fn probe_outcome(status: Option<u16>) -> (r: bool)
    ensures
        r == (status matches Some(s) && is_success_status(s)),
{
    match status {
        Some(s) => is_success(s),
        None => false,
    }
}

/// The embedding of a reply to an embedding request: the first of the
/// vectors it holds (as bit patterns), or `EmptyResult` when it holds none.
pub fn first_embedding(embeddings: Vec<Vec<u32>>) -> (r: Result<Vec<u32>, AiError>)
    ensures
        embeddings@.len() == 0 ==> r matches Err(AiError::EmptyResult),
        embeddings@.len() > 0 ==> (r matches Ok(v) && v@ == embeddings@[0]@),
{
    let mut embeddings = embeddings;
    if embeddings.len() == 0 {
        Err(AiError::EmptyResult)
    } else {
        Ok(embeddings.swap_remove(0))
    }
}

} // verus!
