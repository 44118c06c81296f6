use vstd::prelude::*;

use crate::model_key::{name_part, tag_part, name_of, tag_of};
use crate::text::{
    concat2, concat3, contains, contains_text, ends_with, ends_with_text, lower_of, lowercase,
    starts_with, strip_prefix_text,
};

verus! {

pub const HUGGINGFACE_BASE: &'static str = "https://huggingface.co";

pub const HF_SCHEME: &'static str = "hf://";

pub const GGUF_SUFFIX: &'static str = "-GGUF";

pub const LLAMA4_URL: &'static str = "https://huggingface.co/unsloth/Llama-4-Scout-17B-16E-Instruct-GGUF/resolve/main/Llama-4-Scout-17B-16E-Instruct-UD-Q4_K_XL.gguf";

pub const LLAMA3_URL: &'static str = "https://huggingface.co/QuantFactory/Meta-Llama-3.1-8B-Instruct-GGUF/resolve/main/Meta-Llama-3.1-8B-Instruct.Q4_K_M.gguf";

pub const QWEN3_URL: &'static str = "https://huggingface.co/Qwen/Qwen3-8B-GGUF/resolve/main/qwen3-8b-q4_k_m.gguf";

pub const QWEN2_URL: &'static str = "https://huggingface.co/Qwen/Qwen2.5-7B-Instruct-GGUF/resolve/main/qwen2.5-7b-instruct-q4_k_m.gguf";

pub const GEMMA3_27B_URL: &'static str = "https://huggingface.co/bartowski/google_gemma-3-27b-it-GGUF/resolve/main/google_gemma-3-27b-it-Q4_K_M.gguf";

pub const GEMMA3_URL: &'static str = "https://huggingface.co/bartowski/gemma-3-12b-it-GGUF/resolve/main/gemma-3-12b-it-Q4_K_M.gguf";

pub const GEMMA2_27B_URL: &'static str = "https://huggingface.co/bartowski/gemma-2-27b-it-GGUF/resolve/main/gemma-2-27b-it-Q4_K_M.gguf";

pub const GEMMA2_URL: &'static str = "https://huggingface.co/bartowski/gemma-2-9b-it-GGUF/resolve/main/gemma-2-9b-it-Q4_K_M.gguf";

pub const MISTRAL_URL: &'static str = "https://huggingface.co/TheBloke/Mistral-7B-Instruct-v0.2-GGUF/resolve/main/mistral-7b-instruct-v0.2.Q4_K_M.gguf";

pub const PHI_URL: &'static str = "https://huggingface.co/microsoft/Phi-3-mini-4k-instruct-gguf/resolve/main/Phi-3-mini-4k-instruct-q4.gguf";

pub const DEEPSEEK_URL: &'static str = "https://huggingface.co/bartowski/DeepSeek-R1-Distill-Qwen-7B-GGUF/resolve/main/DeepSeek-R1-Distill-Qwen-7B-Q4_K_M.gguf";

pub const UNKNOWN_MODEL_HINT: &'static str = ". Supported shortcuts: llama3, llama4, qwen2, qwen3, gemma2, gemma3, mistral, phi, deepseek\nOr use HuggingFace path: 'owner/repo-GGUF' (e.g., 'bartowski/gemma-3-27b-it-GGUF')";

/// Where a model named `name` (lower-cased: `lower`) with tag `tag` points
/// to, when it is known; `local` says whether `name` is an existing file.
pub open spec fn url_for(name: Seq<char>, lower: Seq<char>, tag: Seq<char>, local: bool) -> Option<Seq<char>> {
    let has = |p: Seq<char>| contains(lower, p);
    if local && ends_with(lower, ".gguf"@) {
        Some(name)
    } else if contains(name, "/"@) {
        if has("gguf"@) {
            Some(HF_SCHEME@ + name)
        } else {
            Some(HF_SCHEME@ + name + GGUF_SUFFIX@)
        }
    } else if has("llama4"@) || has("llama-4"@) {
        Some(LLAMA4_URL@)
    } else if has("llama3"@) || has("llama-3"@) {
        Some(LLAMA3_URL@)
    } else if has("qwen3"@) || has("qwen-3"@) {
        Some(QWEN3_URL@)
    } else if has("qwen2"@) || has("qwen-2"@) {
        Some(QWEN2_URL@)
    } else if has("gemma3"@) || has("gemma-3"@) {
        if contains(tag, "27b"@) {
            Some(GEMMA3_27B_URL@)
        } else {
            Some(GEMMA3_URL@)
        }
    } else if has("gemma2"@) || has("gemma-2"@) {
        if contains(tag, "27b"@) {
            Some(GEMMA2_27B_URL@)
        } else {
            Some(GEMMA2_URL@)
        }
    } else if has("mistral"@) {
        Some(MISTRAL_URL@)
    } else if has("phi"@) {
        Some(PHI_URL@)
    } else if has("deepseek"@) {
        Some(DEEPSEEK_URL@)
    } else {
        None
    }
}

/// Where a model reference `name[:tag]` points to, when it is known.
pub open spec fn huggingface_url(model: Seq<char>, local: bool) -> Option<Seq<char>> {
    url_for(name_part(model), lower_of(name_part(model)), tag_part(model), local)
}

/// Why a model reference could not be resolved.
pub enum RegistryError {
    UnknownModel(String),
    NoGgufFiles(String),
}

/// One downloadable file of a model.
pub struct ModelDownloadInfo {
    pub url: String,
    pub size: u64,
    pub sha256: String,
    pub format: String,
}

/// What the registry knows of a model: its downloads, by tag.
pub struct RegistryModel {
    pub name: String,
    pub tags: Vec<String>,
    pub description: String,
    pub downloads: Vec<(String, ModelDownloadInfo)>,
}

/// A GGUF file of a repository: its path, its download URL and its size.
pub struct GgufFile {
    pub path: String,
    pub url: String,
    pub size: u64,
}

impl Clone for GgufFile {
    fn clone(&self) -> (r: Self)
        ensures
            r == *self,
    {
        GgufFile { path: self.path.clone(), url: self.url.clone(), size: self.size }
    }
}

/// Quantisation levels, most preferred first.
pub open spec fn quant_priorities() -> Seq<Seq<char>> {
    seq!["q4_k_m"@, "q4_k_s"@, "q5_k_m"@, "q5_k_s"@, "q8_0"@, "q6_k"@, "f16"@]
}

/// The first of `names` that holds `p`, if any.
pub open spec fn first_holding(names: Seq<Seq<char>>, p: Seq<char>) -> Option<int> {
    if exists|i: int| 0 <= i < names.len() && contains(names[i], p) {
        Some(
            choose|i: int|
                0 <= i < names.len() && contains(names[i], p) && forall|j: int|
                    0 <= j < i ==> !contains(names[j], p),
        )
    } else {
        None
    }
}

/// The preferred of `names`, trying the priorities from `k` on.
pub open spec fn preferred_from(names: Seq<Seq<char>>, k: nat) -> int
    decreases quant_priorities().len() - k,
{
    if k >= quant_priorities().len() {
        0
    } else {
        match first_holding(names, quant_priorities()[k as int]) {
            Some(i) => i,
            None => preferred_from(names, k + 1),
        }
    }
}

/// The lower-cased paths of `files`.
pub open spec fn lowered_paths(files: Seq<GgufFile>) -> Seq<Seq<char>> {
    files.map_values(|f: GgufFile| lower_of(f.path@))
}

/// The views of `v`.
pub open spec fn texts(v: Seq<String>) -> Seq<Seq<char>> {
    v.map_values(|s: String| s@)
}

/// The URL of `path` in repository `repo` under `base`.
pub open spec fn file_url(base: Seq<char>, repo: Seq<char>, path: Seq<char>) -> Seq<char> {
    base + "/"@ + repo + "/resolve/main/"@ + path
}

/// Looks model names up on HuggingFace.
pub struct ModelRegistry {
    registry_url: String,
}

impl ModelRegistry {
    pub closed spec fn base(&self) -> Seq<char> {
        self.registry_url@
    }

    pub fn new() -> (r: Self)
        ensures
            r.base() == HUGGINGFACE_BASE@,
    {
        ModelRegistry { registry_url: String::from_str(HUGGINGFACE_BASE) }
    }

    /// The download location of a model named `name`, lower-cased `lower`,
    /// with tag `tag`: `name` itself for a local `.gguf` file, `hf://owner/repo`
    /// for a repository path, a fixed URL for a known family, else nothing.
    pub fn url_for_lowered(&self, name: &str, lower: &str, tag: &str, is_local_file: bool) -> (r: Option<String>)
        ensures
            r matches Some(u) ==> url_for(name@, lower@, tag@, is_local_file) == Some(u@),
            r is None <==> url_for(name@, lower@, tag@, is_local_file) is None,
    {
        let l = lower;
        if is_local_file && ends_with_text(l, ".gguf") {
            return Some(String::from_str(name));
        }
        let url = if contains_text(name, "/") {
            if contains_text(l, "gguf") {
                concat2(HF_SCHEME, name)
            } else {
                concat3(HF_SCHEME, name, GGUF_SUFFIX)
            }
        } else if contains_text(l, "llama4") || contains_text(l, "llama-4") {
            String::from_str(LLAMA4_URL)
        } else if contains_text(l, "llama3") || contains_text(l, "llama-3") {
            String::from_str(LLAMA3_URL)
        } else if contains_text(l, "qwen3") || contains_text(l, "qwen-3") {
            String::from_str(QWEN3_URL)
        } else if contains_text(l, "qwen2") || contains_text(l, "qwen-2") {
            String::from_str(QWEN2_URL)
        } else if contains_text(l, "gemma3") || contains_text(l, "gemma-3") {
            if contains_text(tag, "27b") {
                String::from_str(GEMMA3_27B_URL)
            } else {
                String::from_str(GEMMA3_URL)
            }
        } else if contains_text(l, "gemma2") || contains_text(l, "gemma-2") {
            if contains_text(tag, "27b") {
                String::from_str(GEMMA2_27B_URL)
            } else {
                String::from_str(GEMMA2_URL)
            }
        } else if contains_text(l, "mistral") {
            String::from_str(MISTRAL_URL)
        } else if contains_text(l, "phi") {
            String::from_str(PHI_URL)
        } else if contains_text(l, "deepseek") {
            String::from_str(DEEPSEEK_URL)
        } else {
            return None;
        };
        Some(url)
    }

    /// The download location of a model reference `name[:tag]`, as
    /// `url_for_lowered` gives it for the name, its lower-cased form and the
    /// tag (`is_local_file` says whether the name part is an existing file);
    /// an unknown model is an error.
    pub fn get_huggingface_url(&self, model_name: &str, is_local_file: bool) -> (r: Result<
        String,
        RegistryError,
    >)
        ensures
            r matches Ok(u) ==> huggingface_url(model_name@, is_local_file) == Some(u@),
            r is Err <==> huggingface_url(model_name@, is_local_file) is None,
    {
        let name = name_of(model_name);
        let tag = tag_of(model_name);
        let lower = lowercase(name.as_str());
        match self.url_for_lowered(name.as_str(), lower.as_str(), tag.as_str(), is_local_file) {
            Some(u) => Ok(u),
            None => Err(
                RegistryError::UnknownModel(concat3("Unknown model: ", model_name, UNKNOWN_MODEL_HINT)),
            ),
        }
    }

    /// The registry entry of a model reference: its name, its tag, and one
    /// GGUF download for that tag at the URL `get_huggingface_url` gives.
    pub fn get_model_info(&self, model_name: &str, is_local_file: bool) -> (r: Result<
        RegistryModel,
        RegistryError,
    >)
        ensures
            r is Err <==> huggingface_url(model_name@, is_local_file) is None,
            r matches Ok(m) ==> {
                &&& m.name@ == name_part(model_name@)
                &&& m.tags@.len() == 1
                &&& m.tags@[0]@ == tag_part(model_name@)
                &&& m.description@ == name_part(model_name@) + " model"@
                &&& m.downloads@.len() == 1
                &&& m.downloads@[0].0@ == tag_part(model_name@)
                &&& huggingface_url(model_name@, is_local_file) == Some(m.downloads@[0].1.url@)
                &&& m.downloads@[0].1.size == 0
                &&& m.downloads@[0].1.sha256@.len() == 0
                &&& m.downloads@[0].1.format@ == "gguf"@
            },
    {
        let url = match self.get_huggingface_url(model_name, is_local_file) {
            Ok(u) => u,
            Err(e) => {
                return Err(e);
            },
        };
        let name = name_of(model_name);
        let tag = tag_of(model_name);
        let description = concat2(name.as_str(), " model");
        let info = ModelDownloadInfo {
            url,
            size: 0,
            sha256: String::new(),
            format: String::from_str("gguf"),
        };
        let mut tags: Vec<String> = Vec::new();
        tags.push(tag.clone());
        let mut downloads: Vec<(String, ModelDownloadInfo)> = Vec::new();
        downloads.push((tag, info));
        Ok(RegistryModel { name, tags, description, downloads })
    }

    /// The GGUF files of a repository listing of `(path, size)` pairs: those
    /// whose lower-cased path ends in `.gguf`, in listing order, with their
    /// download URL; a missing size counts as 0.
    pub fn discover_gguf_files(&self, repo: &str, listing: &Vec<(String, Option<u64>)>) -> (r: Vec<GgufFile>)
        ensures
            r@.len() <= listing@.len(),
            forall|i: int|
                0 <= i < r@.len() ==> ends_with(lower_of(#[trigger] r@[i].path@), ".gguf"@)
                    && r@[i].url@ == file_url(self.base(), repo@, r@[i].path@),
            r@.map_values(|f: GgufFile| (f.path@, f.size)) == gguf_entries(listing@),
    {
        let mut out: Vec<GgufFile> = Vec::new();
        let mut i: usize = 0;
        while i < listing.len()
            invariant
                i <= listing.len(),
                out@.len() <= i,
                forall|j: int|
                    0 <= j < out@.len() ==> ends_with(lower_of(#[trigger] out@[j].path@), ".gguf"@)
                        && out@[j].url@ == file_url(self.base(), repo@, out@[j].path@),
                out@.map_values(|f: GgufFile| (f.path@, f.size)) == gguf_entries(
                    listing@.take(i as int),
                ),
            decreases listing.len() - i,
        {
            let ghost before = out@;
            let path = &listing[i].0;
            let lower = lowercase(path.as_str());
            assert(listing@.take(i + 1).drop_last() =~= listing@.take(i as int));
            if ends_with_text(lower.as_str(), ".gguf") {
                let mut url = String::from_str(self.registry_url.as_str());
                url.append("/");
                url.append(repo);
                url.append("/resolve/main/");
                url.append(path.as_str());
                let size = match listing[i].1 {
                    Some(s) => s,
                    None => 0,
                };
                out.push(GgufFile { path: path.clone(), url, size });
                assert(out@.map_values(|f: GgufFile| (f.path@, f.size)) =~= before.map_values(
                    |f: GgufFile| (f.path@, f.size),
                ).push((path@, size)));
            }
            i = i + 1;
        }
        assert(listing@.take(i as int) =~= listing@);
        out
    }

    /// The preferred GGUF file: the first whose lower-cased path holds the
    /// most preferred quantisation level present, else the first file.
    pub fn get_best_gguf_url(&self, repo: &str, files: &Vec<GgufFile>) -> (r: Result<
        GgufFile,
        RegistryError,
    >)
        ensures
            files@.len() == 0 <==> r is Err,
            r matches Ok(f) ==> 0 <= preferred_from(lowered_paths(files@), 0) < files@.len() && f
                == files@[preferred_from(lowered_paths(files@), 0)],
    {
        if files.len() == 0 {
            return Err(RegistryError::NoGgufFiles(concat2("No GGUF files found in repository: ", repo)));
        }
        let mut lowers: Vec<String> = Vec::new();
        let mut i: usize = 0;
        while i < files.len()
            invariant
                i <= files.len(),
                lowers@.len() == i,
                forall|j: int| 0 <= j < i ==> #[trigger] lowers@[j]@ == lower_of(files@[j].path@),
            decreases files.len() - i,
        {
            lowers.push(lowercase(files[i].path.as_str()));
            i = i + 1;
        }
        assert(texts(lowers@) =~= lowered_paths(files@));
        let k = preferred_index(&lowers);
        Ok(files[k].clone())
    }
}

/// Position of the preferred of the lower-cased file paths `lowered`: the
/// first holding the most preferred quantisation level present, else 0.
pub fn preferred_index(lowered: &Vec<String>) -> (r: usize)
    requires
        lowered@.len() > 0,
    ensures
        r == preferred_from(texts(lowered@), 0),
        r < lowered@.len(),
{
    let ghost names = texts(lowered@);
    let priorities: [&str; 7] = ["q4_k_m", "q4_k_s", "q5_k_m", "q5_k_s", "q8_0", "q6_k", "f16"];
    assert(priorities@.map_values(|p: &str| p@) =~= quant_priorities());
    let mut k: usize = 0;
    while k < 7
        invariant
            k <= 7,
            names == texts(lowered@),
            lowered@.len() > 0,
            priorities@.map_values(|p: &str| p@) == quant_priorities(),
            preferred_from(names, k as nat) == preferred_from(names, 0),
        decreases 7 - k,
    {
        let p = priorities[k];
        assert(p@ == quant_priorities()[k as int]);
        let mut j: usize = 0;
        while j < lowered.len()
            invariant
                j <= lowered.len(),
                names == texts(lowered@),
                forall|t: int| 0 <= t < j ==> !contains(names[t], p@),
                k < 7,
                p@ == quant_priorities()[k as int],
                preferred_from(names, k as nat) == preferred_from(names, 0),
            decreases lowered.len() - j,
        {
            if contains_text(lowered[j].as_str(), p) {
                proof {
                    assert(names[j as int] == lowered@[j as int]@);
                    let c = choose|c: int|
                        0 <= c < names.len() && contains(names[c], p@) && forall|t: int|
                            0 <= t < c ==> !contains(names[t], p@);
                    assert(0 <= j < names.len() && contains(names[j as int], p@) && forall|t: int|
                        0 <= t < j ==> !contains(names[t], p@));
                    if c > j {
                        assert(!contains(names[j as int], p@));
                    }
                    assert(first_holding(names, p@) == Some(j as int));
                    assert(quant_priorities().len() == 7);
                    assert(preferred_from(names, k as nat) == j as int);
                }
                return j;
            }
            proof {
                assert(names[j as int] == lowered@[j as int]@);
            }
            j = j + 1;
        }
        assert(first_holding(names, p@) is None);
        k = k + 1;
    }
    0
}

impl Default for ModelRegistry {
    fn default() -> (r: Self)
        ensures
            r.base() == HUGGINGFACE_BASE@,
    {
        Self::new()
    }
}

/// `(path, size)` of the GGUF entries of a listing, in order.
pub open spec fn gguf_entries(listing: Seq<(String, Option<u64>)>) -> Seq<(Seq<char>, u64)>
    decreases listing.len(),
{
    if listing.len() == 0 {
        Seq::empty()
    } else {
        let rest = gguf_entries(listing.drop_last());
        let (path, size) = listing.last();
        if ends_with(lower_of(path@), ".gguf"@) {
            rest.push(
                (
                    path@,
                    match size {
                        Some(s) => s,
                        None => 0,
                    },
                ),
            )
        } else {
            rest
        }
    }
}

/// The repository behind an `hf://owner/repo` location, if it is one.
pub fn hf_repo(url: &str) -> (r: Option<String>)
    ensures
        r matches Some(t) ==> starts_with(url@, HF_SCHEME@) && t@ == url@.skip(HF_SCHEME@.len() as int),
        r is None ==> !starts_with(url@, HF_SCHEME@),
{
    strip_prefix_text(url, HF_SCHEME)
}

} // verus!
