//! The quantized models that the local runner can fetch and run: where their
//! weights are published and where they are kept on disk.
use vstd::prelude::*;
use crate::text::{owned, str_eq};

verus! {

/// The directory that holds downloaded weights.
pub const MODEL_DIR: &'static str = "models";

/// The repository and weight file of each model the runner knows.
pub open spec fn gguf_model_of(name: Seq<char>) -> Option<(Seq<char>, Seq<char>)> {
    if name == "qwen"@ {
        Some(("bartowski/Qwen2.5-3B-Instruct-GGUF"@, "Qwen2.5-3B-Instruct-Q4_K_M.gguf"@))
    } else if name == "smollm2"@ {
        Some(("bartowski/SmolLM2-1.7B-Instruct-GGUF"@, "smollm2-1.7b-instruct-q4_k_m.gguf"@))
    } else if name == "llama8b"@ {
        Some(
            (
                "bartowski/Meta-Llama-3.1-8B-Instruct-GGUF"@,
                "Meta-Llama-3.1-8B-Instruct-Q4_K_M.gguf"@,
            ),
        )
    } else {
        None
    }
}

/// Looks a model up by its exact short name.
pub fn gguf_model(name: &str) -> (r: Option<(&'static str, &'static str)>)
    ensures
        match r {
            Some((repo, file)) => gguf_model_of(name@) == Some((repo@, file@)),
            None => gguf_model_of(name@) is None,
        },
{
    if str_eq(name, "qwen") {
        Some(("bartowski/Qwen2.5-3B-Instruct-GGUF", "Qwen2.5-3B-Instruct-Q4_K_M.gguf"))
    } else if str_eq(name, "smollm2") {
        Some(("bartowski/SmolLM2-1.7B-Instruct-GGUF", "smollm2-1.7b-instruct-q4_k_m.gguf"))
    } else if str_eq(name, "llama8b") {
        Some(("bartowski/Meta-Llama-3.1-8B-Instruct-GGUF", "Meta-Llama-3.1-8B-Instruct-Q4_K_M.gguf"))
    } else {
        None
    }
}

/// Where a weight file is kept: `dir/file`.
pub fn model_path(dir: &str, file: &str) -> (r: String)
    ensures
        r@ == dir@ + "/"@ + file@,
{
    let mut p = owned(dir);
    p.append("/");
    p.append(file);
    p
}

/// Where a weight file is downloaded from.
pub fn download_url(repo: &str, file: &str) -> (r: String)
    ensures
        r@ == "https://huggingface.co/"@ + repo@ + "/resolve/main/"@ + file@,
{
    let mut u = owned("https://huggingface.co/");
    u.append(repo);
    u.append("/resolve/main/");
    u.append(file);
    u
}

} // verus!
