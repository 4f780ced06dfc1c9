//! Choosing which Qwen model to provision for a machine, and the rules
//! the model downloader follows.
use vstd::prelude::*;
use crate::server::api::{split_chars, split_on};
use crate::text::{all_ws, ascii_lower_seq, chars_of, is_blank, lit, parse_int_spec, parse_u64, string_from_chars, trim, trimmed};
use crate::llm::tools::{str_eq, strings_view, text_eq};

verus! {

/// One gibibyte, in bytes.
pub const GIB: u64 = 1073741824;

/// A model to download: repository, size, quantization and files.
pub struct ModelConfig {
    pub repo_id: String,
    pub param_size: String,
    pub quantization: String,
    pub files: Vec<String>,
}

/// The model family a machine's memory affords (7, 3, 15 for 1.5 and 5 for
/// 0.5 billion parameters) and whether the 8-bit quantization is chosen:
/// RAM decides the family; 8-bit needs enough GPU memory and a GPU power
/// limit known to be high enough.
pub open spec fn qwen_choice(ram_bytes: Option<u64>, vram_bytes: u64, power_watts_floor: Option<u64>) -> (int, bool) {
    let ram = match ram_bytes {
        Some(r) => r as int,
        None => 0,
    };
    let power_at_least = |w: int| match power_watts_floor {
        Some(p) => p >= w,
        None => false,
    };
    if ram >= 16 * GIB {
        (7, vram_bytes >= 12 * GIB && power_at_least(90))
    } else if ram >= 8 * GIB {
        (3, vram_bytes >= 6 * GIB && power_at_least(80))
    } else if ram >= 4 * GIB {
        (15, vram_bytes >= 4 * GIB && power_at_least(65))
    } else {
        (5, false)
    }
}

/// The repository, size label and files of a family and quantization.
pub open spec fn config_text(family: int, q8: bool) -> (Seq<char>, Seq<char>, Seq<char>, Seq<Seq<char>>) {
    if family == 7 {
        if q8 {
            ("Qwen/Qwen2.5-7B-Instruct-GGUF"@, "7B"@, "Q8_0"@, seq![
                "qwen2.5-7b-instruct-q8_0-00001-of-00003.gguf"@,
                "qwen2.5-7b-instruct-q8_0-00002-of-00003.gguf"@,
                "qwen2.5-7b-instruct-q8_0-00003-of-00003.gguf"@,
            ])
        } else {
            ("Qwen/Qwen2.5-7B-Instruct-GGUF"@, "7B"@, "Q4_K_M"@, seq![
                "qwen2.5-7b-instruct-q4_k_m-00001-of-00002.gguf"@,
                "qwen2.5-7b-instruct-q4_k_m-00002-of-00002.gguf"@,
            ])
        }
    } else if family == 3 {
        if q8 {
            ("Qwen/Qwen2.5-3B-Instruct-GGUF"@, "3B"@, "Q8_0"@, seq!["qwen2.5-3b-instruct-q8_0.gguf"@])
        } else {
            ("Qwen/Qwen2.5-3B-Instruct-GGUF"@, "3B"@, "Q4_K_M"@, seq!["qwen2.5-3b-instruct-q4_k_m.gguf"@])
        }
    } else if family == 15 {
        if q8 {
            ("Qwen/Qwen2.5-1.5B-Instruct-GGUF"@, "1.5B"@, "Q8_0"@, seq!["qwen2.5-1.5b-instruct-q8_0.gguf"@])
        } else {
            ("Qwen/Qwen2.5-1.5B-Instruct-GGUF"@, "1.5B"@, "Q4_K_M"@, seq!["qwen2.5-1.5b-instruct-q4_k_m.gguf"@])
        }
    } else {
        ("Qwen/Qwen2.5-0.5B-Instruct-GGUF"@, "0.5B"@, "Q4_K_M"@, seq!["qwen2.5-0.5b-instruct-q4_k_m.gguf"@])
    }
}

pub open spec fn config_matches(c: ModelConfig, family: int, q8: bool) -> bool {
    let t = config_text(family, q8);
    &&& c.repo_id@ == t.0
    &&& c.param_size@ == t.1
    &&& c.quantization@ == t.2
    &&& strings_view(c.files@) == t.3
}

fn config(repo_id: &str, param_size: &str, quantization: &str, files: &[&str]) -> (c: ModelConfig)
    ensures
        c.repo_id@ == repo_id@,
        c.param_size@ == param_size@,
        c.quantization@ == quantization@,
        strings_view(c.files@) == files@.map_values(|f: &str| f@),
{
    let mut v: Vec<String> = Vec::new();
    let mut i: usize = 0;
    while i < files.len()
        invariant
            i <= files@.len(),
            v@.len() == i,
            forall|k: int| 0 <= k < i ==> #[trigger] v@[k]@ == files@[k]@,
        decreases files.len() - i,
    {
        v.push(files[i].to_string());
        i = i + 1;
    }
    assert(strings_view(v@) =~= files@.map_values(|f: &str| f@));
    ModelConfig {
        repo_id: repo_id.to_string(),
        param_size: param_size.to_string(),
        quantization: quantization.to_string(),
        files: v,
    }
}

/// Picks the Qwen model for a machine with the given RAM (if known), GPU
/// memory, and GPU power limit rounded down to whole watts (if known).
pub fn select_optimal_qwen_model(ram_bytes: Option<u64>, vram_bytes: u64, power_watts_floor: Option<u64>) -> (c: ModelConfig)
    ensures
        ({
            let (family, q8) = qwen_choice(ram_bytes, vram_bytes, power_watts_floor);
            config_matches(c, family, q8)
        }),
{
    let ram: u64 = match ram_bytes {
        Some(r) => r,
        None => 0,
    };
    let power: u64 = match power_watts_floor {
        Some(p) => p,
        None => 0,
    };
    let known = power_watts_floor.is_some();
    if ram >= 16 * GIB {
        if vram_bytes >= 12 * GIB && known && power >= 90 {
            let c = config("Qwen/Qwen2.5-7B-Instruct-GGUF", "7B", "Q8_0", &[
                "qwen2.5-7b-instruct-q8_0-00001-of-00003.gguf",
                "qwen2.5-7b-instruct-q8_0-00002-of-00003.gguf",
                "qwen2.5-7b-instruct-q8_0-00003-of-00003.gguf",
            ]);
            assert(strings_view(c.files@) =~= config_text(7, true).3);
            return c;
        }
        let c = config("Qwen/Qwen2.5-7B-Instruct-GGUF", "7B", "Q4_K_M", &[
            "qwen2.5-7b-instruct-q4_k_m-00001-of-00002.gguf",
            "qwen2.5-7b-instruct-q4_k_m-00002-of-00002.gguf",
        ]);
        assert(strings_view(c.files@) =~= config_text(7, false).3);
        return c;
    }
    if ram >= 8 * GIB {
        if vram_bytes >= 6 * GIB && known && power >= 80 {
            let c = config("Qwen/Qwen2.5-3B-Instruct-GGUF", "3B", "Q8_0", &["qwen2.5-3b-instruct-q8_0.gguf"]);
            assert(strings_view(c.files@) =~= config_text(3, true).3);
            return c;
        }
        let c = config("Qwen/Qwen2.5-3B-Instruct-GGUF", "3B", "Q4_K_M", &["qwen2.5-3b-instruct-q4_k_m.gguf"]);
        assert(strings_view(c.files@) =~= config_text(3, false).3);
        return c;
    }
    if ram >= 4 * GIB {
        if vram_bytes >= 4 * GIB && known && power >= 65 {
            let c = config("Qwen/Qwen2.5-1.5B-Instruct-GGUF", "1.5B", "Q8_0", &["qwen2.5-1.5b-instruct-q8_0.gguf"]);
            assert(strings_view(c.files@) =~= config_text(15, true).3);
            return c;
        }
        let c = config("Qwen/Qwen2.5-1.5B-Instruct-GGUF", "1.5B", "Q4_K_M", &["qwen2.5-1.5b-instruct-q4_k_m.gguf"]);
        assert(strings_view(c.files@) =~= config_text(15, false).3);
        return c;
    }
    let c = config("Qwen/Qwen2.5-0.5B-Instruct-GGUF", "0.5B", "Q4_K_M", &["qwen2.5-0.5b-instruct-q4_k_m.gguf"]);
    assert(strings_view(c.files@) =~= config_text(5, false).3);
    c
}

/// The model chosen for a machine, tier by tier: RAM of at least 16 GiB
/// gets the 7B model, at least 8 GiB the 3B, at least 4 GiB the 1.5B and
/// less (or unknown RAM) the 0.5B; the 8-bit `Q8_0` build is chosen exactly
/// when the GPU has the tier's memory (12, 6 or 4 GiB) and a known power
/// limit of at least the tier's floor (90, 80 or 65 W), and `Q4_K_M`
/// otherwise. So without a GPU, or with no known power limit, every tier
/// gets the 4-bit build, and the 0.5B model is always 4-bit.
pub proof fn law_qwen_selection_tiers(ram_bytes: Option<u64>, vram_bytes: u64, power_watts_floor: Option<u64>, c: ModelConfig)
    requires
        config_matches(
            c,
            qwen_choice(ram_bytes, vram_bytes, power_watts_floor).0,
            qwen_choice(ram_bytes, vram_bytes, power_watts_floor).1,
        ),
    ensures
        ({
            let ram: int = match ram_bytes {
                Some(r) => r as int,
                None => 0,
            };
            let watts: int = match power_watts_floor {
                Some(p) => p as int,
                None => -1,
            };
            &&& c.quantization@ == "Q8_0"@ || c.quantization@ == "Q4_K_M"@
            &&& ram >= 16 * 1073741824 ==> c.param_size@ == "7B"@ && (c.quantization@ == "Q8_0"@ <==> vram_bytes
                >= 12 * 1073741824 && watts >= 90)
            &&& 8 * 1073741824 <= ram < 16 * 1073741824 ==> c.param_size@ == "3B"@ && (c.quantization@ == "Q8_0"@
                <==> vram_bytes >= 6 * 1073741824 && watts >= 80)
            &&& 4 * 1073741824 <= ram < 8 * 1073741824 ==> c.param_size@ == "1.5B"@ && (c.quantization@ == "Q8_0"@
                <==> vram_bytes >= 4 * 1073741824 && watts >= 65)
            &&& ram < 4 * 1073741824 ==> c.param_size@ == "0.5B"@ && c.quantization@ == "Q4_K_M"@
            &&& (vram_bytes == 0 || power_watts_floor is None) ==> c.quantization@ == "Q4_K_M"@
        }),
{
    reveal_strlit("Q8_0");
    reveal_strlit("Q4_K_M");
    assert("Q8_0"@ != "Q4_K_M"@) by {
        assert("Q8_0"@.len() != "Q4_K_M"@.len());
    }
}

/// The repository and file names of a family and quantization follow the
/// model's size and quantization labels.
proof fn lemma_config_text_names(family: int, q8: bool)
    ensures
        ({
            let t = config_text(family, q8);
            let stem = "qwen2.5-"@ + ascii_lower_seq(t.1) + "-instruct-"@ + ascii_lower_seq(t.2);
            &&& t.0 == "Qwen/Qwen2.5-"@ + t.1 + "-Instruct-GGUF"@
            &&& t.3.len() >= 1
            &&& forall|k: int| 0 <= k < t.3.len() ==> stem.is_prefix_of(#[trigger] t.3[k]) && ".gguf"@.is_suffix_of(t.3[k])
        }),
{
    reveal_strlit("Qwen/Qwen2.5-");
    reveal_strlit("-Instruct-GGUF");
    reveal_strlit("qwen2.5-");
    reveal_strlit("-instruct-");
    reveal_strlit(".gguf");
    reveal_strlit("Q8_0");
    reveal_strlit("Q4_K_M");
    let t = config_text(family, q8);
    if family == 7 {
        reveal_strlit("Qwen/Qwen2.5-7B-Instruct-GGUF");
        reveal_strlit("7B");
        assert(t.0 =~= "Qwen/Qwen2.5-"@ + t.1 + "-Instruct-GGUF"@);
        if q8 {
            reveal_strlit("qwen2.5-7b-instruct-q8_0-00001-of-00003.gguf");
            reveal_strlit("qwen2.5-7b-instruct-q8_0-00002-of-00003.gguf");
            reveal_strlit("qwen2.5-7b-instruct-q8_0-00003-of-00003.gguf");
        } else {
            reveal_strlit("qwen2.5-7b-instruct-q4_k_m-00001-of-00002.gguf");
            reveal_strlit("qwen2.5-7b-instruct-q4_k_m-00002-of-00002.gguf");
        }
    } else if family == 3 {
        reveal_strlit("Qwen/Qwen2.5-3B-Instruct-GGUF");
        reveal_strlit("3B");
        assert(t.0 =~= "Qwen/Qwen2.5-"@ + t.1 + "-Instruct-GGUF"@);
        reveal_strlit("qwen2.5-3b-instruct-q8_0.gguf");
        reveal_strlit("qwen2.5-3b-instruct-q4_k_m.gguf");
    } else if family == 15 {
        reveal_strlit("Qwen/Qwen2.5-1.5B-Instruct-GGUF");
        reveal_strlit("1.5B");
        assert(t.0 =~= "Qwen/Qwen2.5-"@ + t.1 + "-Instruct-GGUF"@);
        reveal_strlit("qwen2.5-1.5b-instruct-q8_0.gguf");
        reveal_strlit("qwen2.5-1.5b-instruct-q4_k_m.gguf");
    } else {
        reveal_strlit("Qwen/Qwen2.5-0.5B-Instruct-GGUF");
        reveal_strlit("0.5B");
        assert(t.0 =~= "Qwen/Qwen2.5-"@ + t.1 + "-Instruct-GGUF"@);
        reveal_strlit("qwen2.5-0.5b-instruct-q4_k_m.gguf");
    }
    let stem = "qwen2.5-"@ + ascii_lower_seq(t.1) + "-instruct-"@ + ascii_lower_seq(t.2);
    assert forall|k: int| 0 <= k < t.3.len() implies stem.is_prefix_of(#[trigger] t.3[k]) && ".gguf"@.is_suffix_of(t.3[k]) by {
        assert(stem =~= t.3[k].subrange(0, stem.len() as int));
        assert(".gguf"@ =~= t.3[k].subrange(t.3[k].len() - 5, t.3[k].len() as int));
    }
}

/// Every model the selection picks comes from the repository
/// `Qwen/Qwen2.5-<size>-Instruct-GGUF` of its size label, and has at least
/// one file, each a `.gguf` file whose name begins with
/// `qwen2.5-<size>-instruct-<quantization>`, both labels in lower case: the
/// files fetched are those of the model chosen.
pub proof fn law_qwen_selection_names(ram_bytes: Option<u64>, vram_bytes: u64, power_watts_floor: Option<u64>, c: ModelConfig)
    requires
        config_matches(
            c,
            qwen_choice(ram_bytes, vram_bytes, power_watts_floor).0,
            qwen_choice(ram_bytes, vram_bytes, power_watts_floor).1,
        ),
    ensures
        c.repo_id@ == "Qwen/Qwen2.5-"@ + c.param_size@ + "-Instruct-GGUF"@,
        c.files@.len() >= 1,
        forall|k: int| 0 <= k < c.files@.len() ==> {
            let f = (#[trigger] c.files@[k])@;
            &&& ("qwen2.5-"@ + ascii_lower_seq(c.param_size@) + "-instruct-"@ + ascii_lower_seq(c.quantization@)).is_prefix_of(f)
            &&& ".gguf"@.is_suffix_of(f)
        },
{
    let (family, q8) = qwen_choice(ram_bytes, vram_bytes, power_watts_floor);
    lemma_config_text_names(family, q8);
    assert forall|k: int| 0 <= k < c.files@.len() implies #[trigger] c.files@[k]@ == config_text(family, q8).3[k] by {
        assert(strings_view(c.files@)[k] == c.files@[k]@);
    }
}

/// Attempts a download is tried by default.
pub const DEFAULT_MAX_RETRIES: u32 = 5;

/// First retry delay by default, in milliseconds.
pub const DEFAULT_BACKOFF_MS: u64 = 1500;

/// The retry count configured by a setting: a positive integer, else the
/// default.
pub open spec fn retries_setting(value: Option<Seq<char>>) -> u32 {
    match value {
        Some(v) => match parse_int_spec(v, false, 0, u32::MAX as int) {
            Ok(n) => if n > 0 {
                n as u32
            } else {
                DEFAULT_MAX_RETRIES
            },
            Err(_) => DEFAULT_MAX_RETRIES,
        },
        None => DEFAULT_MAX_RETRIES,
    }
}

/// The initial back-off configured by a setting: a positive integer, else
/// the default.
pub open spec fn backoff_setting(value: Option<Seq<char>>) -> u64 {
    match value {
        Some(v) => match parse_int_spec(v, false, 0, u64::MAX as int) {
            Ok(n) => if n > 0 {
                n as u64
            } else {
                DEFAULT_BACKOFF_MS
            },
            Err(_) => DEFAULT_BACKOFF_MS,
        },
        None => DEFAULT_BACKOFF_MS,
    }
}

/// Reads the retry-count setting.
pub fn max_retries_from(value: Option<&str>) -> (n: u32)
    ensures
        n == retries_setting(
            match value {
                Some(v) => Some(v@),
                None => None,
            },
        ),
{
    match value {
        Some(v) => match crate::text::parse_u32(&chars_of(v)) {
            Ok(n) => if n > 0 {
                n
            } else {
                DEFAULT_MAX_RETRIES
            },
            Err(_) => DEFAULT_MAX_RETRIES,
        },
        None => DEFAULT_MAX_RETRIES,
    }
}

/// Reads the back-off setting.
pub fn backoff_ms_from(value: Option<&str>) -> (n: u64)
    ensures
        n == backoff_setting(
            match value {
                Some(v) => Some(v@),
                None => None,
            },
        ),
{
    match value {
        Some(v) => match parse_u64(&chars_of(v)) {
            Ok(n) => if n > 0 {
                n
            } else {
                DEFAULT_BACKOFF_MS
            },
            Err(_) => DEFAULT_BACKOFF_MS,
        },
        None => DEFAULT_BACKOFF_MS,
    }
}

/// The access token: the first variable that is set (the read-only key,
/// else `HF_TOKEN`), trimmed, unless it is then empty.
pub fn access_token(read_only_key: Option<&str>, hf_token: Option<&str>) -> (r: Option<String>)
    ensures
        ({
            let v = if read_only_key is Some {
                read_only_key
            } else {
                hf_token
            };
            match v {
                Some(t) => if trim(t@).len() > 0 {
                    r matches Some(s) && s@ == trim(t@)
                } else {
                    r is None
                },
                None => r is None,
            }
        }),
{
    let v = if read_only_key.is_some() {
        read_only_key
    } else {
        hf_token
    };
    match v {
        Some(t) => {
            let tt = trimmed(&chars_of(t));
            if tt.len() > 0 {
                Some(string_from_chars(tt.as_slice()))
            } else {
                None
            }
        },
        None => None,
    }
}

/// The delay before the retry that follows failed attempt `attempt`
/// (counted from one): the back-off doubled per earlier attempt, at most 32
/// times, saturating.
pub open spec fn retry_delay(backoff_ms: u64, attempt: u32) -> int {
    let shift = if attempt - 1 < 5 {
        attempt - 1
    } else {
        5
    };
    let d = backoff_ms * vstd::arithmetic::power2::pow2(shift as nat);
    if d > u64::MAX {
        u64::MAX as int
    } else {
        d
    }
}

/// What follows a failed attempt: give up after the last one, else wait.
pub fn after_failure(backoff_ms: u64, attempt: u32, max_retries: u32) -> (r: Option<u64>)
    requires
        1 <= attempt <= max_retries,
    ensures
        attempt == max_retries ==> r is None,
        attempt < max_retries ==> r == Some(retry_delay(backoff_ms, attempt) as u64),
{
    if attempt == max_retries {
        return None;
    }
    let shift: u32 = if attempt - 1 < 5 {
        attempt - 1
    } else {
        5
    };
    let multiplier: u64 = if shift == 0 {
        1
    } else if shift == 1 {
        2
    } else if shift == 2 {
        4
    } else if shift == 3 {
        8
    } else if shift == 4 {
        16
    } else {
        32
    };
    proof {
        vstd::arithmetic::power2::lemma2_to64();
    }
    match backoff_ms.checked_mul(multiplier) {
        Some(d) => Some(d),
        None => Some(u64::MAX),
    }
}

/// Whether a `/`-separated path has a `..` component.
pub open spec fn has_parent_component(path: Seq<char>) -> bool {
    exists|k: int| 0 <= k < split_on(path, '/').len() && #[trigger] split_on(path, '/')[k] == ".."@
}

fn parent_component(path: &str) -> (b: bool)
    ensures
        b == has_parent_component(path@),
{
    let pieces = split_chars(&chars_of(path), '/');
    let ghost pv = pieces@.map_values(|p: Vec<char>| p@);
    let dots = lit("..");
    let mut i: usize = 0;
    while i < pieces.len()
        invariant
            i <= pieces@.len(),
            pv == pieces@.map_values(|p: Vec<char>| p@),
            pv == split_on(path@, '/'),
            dots@ == ".."@,
            forall|q: int| 0 <= q < i ==> pv[q] != ".."@,
        decreases pieces.len() - i,
    {
        if text_eq(&pieces[i], &dots) {
            assert(pv[i as int] == ".."@);
            return true;
        }
        i = i + 1;
    }
    false
}

/// Checks a file name of a model repository before it is written under
/// the output directory: an absolute path or a `..` component is refused.
pub fn validate_relative_repo_path(path: &str) -> (r: Result<(), String>)
    ensures
        path@.len() > 0 && path@[0] == '/' ==> (r matches Err(m) && m@ == "refusing absolute repository path: "@
            + path@),
        !(path@.len() > 0 && path@[0] == '/') && has_parent_component(path@) ==> (r matches Err(m) && m@
            == "refusing path traversal in repository filename: "@ + path@),
        !(path@.len() > 0 && path@[0] == '/') && !has_parent_component(path@) ==> r is Ok,
{
    let cs = chars_of(path);
    if cs.len() > 0 && cs[0] == '/' {
        let mut m = String::new();
        m.append("refusing absolute repository path: ");
        m.append(path);
        return Err(m);
    }
    if parent_component(path) {
        let mut m = String::new();
        m.append("refusing path traversal in repository filename: ");
        m.append(path);
        return Err(m);
    }
    Ok(())
}

/// Where the chat model is written.
pub const QWEN_OUTPUT_DIR: &'static str = "llm_models/chat/qwen_safetensors_output";

/// Where the embedding model is written.
pub const BGE_OUTPUT_DIR: &'static str = "llm_models/embedding/bge_safetensors_output";

/// Checks that neither output directory climbs out of the working
/// directory.
pub fn validate_output_roots() -> (r: Result<(), String>)
    ensures
        has_parent_component(QWEN_OUTPUT_DIR@) ==> (r matches Err(m) && m@ == "unsafe output directory configured: "@
            + QWEN_OUTPUT_DIR@),
        !has_parent_component(QWEN_OUTPUT_DIR@) && has_parent_component(BGE_OUTPUT_DIR@) ==> (r matches Err(m)
            && m@ == "unsafe output directory configured: "@ + BGE_OUTPUT_DIR@),
        !has_parent_component(QWEN_OUTPUT_DIR@) && !has_parent_component(BGE_OUTPUT_DIR@) ==> r is Ok,
{
    if parent_component(QWEN_OUTPUT_DIR) {
        let mut m = String::new();
        m.append("unsafe output directory configured: ");
        m.append(QWEN_OUTPUT_DIR);
        return Err(m);
    }
    if parent_component(BGE_OUTPUT_DIR) {
        let mut m = String::new();
        m.append("unsafe output directory configured: ");
        m.append(BGE_OUTPUT_DIR);
        return Err(m);
    }
    Ok(())
}

/// Whether a repository's listing names a file.
fn listed_in(listed: &Vec<String>, name: &String) -> (b: bool)
    ensures
        b == strings_view(listed@).contains(name@),
{
    let mut i: usize = 0;
    while i < listed.len()
        invariant
            i <= listed@.len(),
            forall|k: int| 0 <= k < i ==> listed@[k]@ != name@,
        decreases listed.len() - i,
    {
        if str_eq(listed[i].as_str(), name.as_str()) {
            assert(strings_view(listed@)[i as int] == name@);
            return true;
        }
        i = i + 1;
    }
    assert forall|k: int| 0 <= k < strings_view(listed@).len() implies strings_view(listed@)[k] != name@ by {
        assert(strings_view(listed@)[k] == listed@[k]@);
    }
    false
}

/// The first of the required files that the repository's listing does not
/// name, by its position; `None` when the listing names them all.
pub fn first_missing_file(required: &Vec<String>, listed: &Vec<String>) -> (r: Option<usize>)
    ensures
        match r {
            None => forall|k: int| 0 <= k < required@.len() ==> strings_view(listed@).contains(
                #[trigger] required@[k]@,
            ),
            Some(i) => i < required@.len() && !strings_view(listed@).contains(required@[i as int]@) && forall|
                k: int,
            | 0 <= k < i ==> strings_view(listed@).contains(#[trigger] required@[k]@),
        },
{
    let mut i: usize = 0;
    while i < required.len()
        invariant
            i <= required@.len(),
            forall|k: int| 0 <= k < i ==> strings_view(listed@).contains(#[trigger] required@[k]@),
        decreases required.len() - i,
    {
        if !listed_in(listed, &required[i]) {
            return Some(i);
        }
        i = i + 1;
    }
    None
}

} // verus!
