//! What the server tells about its models: version, model entries with
//! their digests, the detail view of one model, and the models "running".

use vstd::prelude::*;
use crate::clock::{
    ends_with_utc_offset, last_second_of_9999, opt_text, read_clock, rfc3339_after, rfc3339_after_spec, ClockReading,
};
use crate::requests::RequestError;
use crate::text::{concat3, owned, push_char};

verus! {

/// The server version reported to clients.
pub fn server_version() -> (r: String)
    ensures
        r@ == "0.9.6"@,
{
    String::from_str("0.9.6")
}

/// The sum of the bytes, wrapping around at 2^64.
pub open spec fn byte_sum(bs: Seq<u8>) -> u64
    decreases bs.len(),
{
    if bs.len() == 0 {
        0
    } else {
        vstd::wrapping::u64_specs::wrapping_add(byte_sum(bs.drop_last()), bs.last() as u64)
    }
}

/// The lower-case hex digit for `d < 16`.
pub open spec fn hex_digit(d: nat) -> char {
    if d < 10 {
        (48 + d) as char
    } else {
        (87 + d) as char
    }
}

/// `v` in lower-case hex, padded with zeros to `width` digits (the low
/// `width` digits when `v` needs more).
pub open spec fn padded_hex(v: nat, width: nat) -> Seq<char>
    decreases width,
{
    if width == 0 {
        seq![]
    } else {
        padded_hex(v / 16, (width - 1) as nat).push(hex_digit(v % 16))
    }
}

/// The digest shown for a model: `sha256:` and the byte sum of its name in
/// 64 hex digits.
pub open spec fn digest_spec(name: Seq<char>) -> Seq<char> {
    "sha256:"@ + padded_hex(byte_sum(vstd::utf8::encode_utf8(name)) as nat, 64)
}

fn hex_digit_char(d: u64) -> (r: char)
    requires
        d < 16,
    ensures
        r == hex_digit(d as nat),
{
    let b: u8 = if d < 10 {
        48 + d as u8
    } else {
        87 + d as u8
    };
    b as char
}

fn push_padded_hex(out: &mut String, v: u64, width: usize)
    ensures
        final(out)@ == old(out)@ + padded_hex(v as nat, width as nat),
    decreases width,
{
    if width > 0 {
        push_padded_hex(out, v / 16, width - 1);
        push_char(out, hex_digit_char(v % 16));
    } else {
        assert(old(out)@ + seq![] =~= old(out)@);
    }
}

/// The digest of a model name (see [`digest_spec`]).
pub fn model_digest(name: &str) -> (r: String)
    ensures
        r@ == digest_spec(name@),
{
    let bytes = name.as_bytes();
    let mut sum: u64 = 0;
    let n = bytes.len();
    for i in 0..n
        invariant
            n == bytes@.len(),
            bytes@ == vstd::utf8::encode_utf8(name@),
            sum == byte_sum(bytes@.take(i as int)),
    {
        assert(bytes@.take(i + 1).drop_last() =~= bytes@.take(i as int));
        sum = sum.wrapping_add(bytes[i] as u64);
    }
    assert(bytes@.take(n as int) =~= bytes@);
    let mut out = String::from_str("sha256:");
    push_padded_hex(&mut out, sum, 64);
    out
}

pub proof fn lemma_padded_hex(v: nat, width: nat)
    ensures
        padded_hex(v, width).len() == width,
        forall|i: int|
            0 <= i < width ==> ('0' <= #[trigger] padded_hex(v, width)[i] <= '9') || ('a'
                <= padded_hex(v, width)[i] <= 'f'),
    decreases width,
{
    if width > 0 {
        lemma_padded_hex(v / 16, (width - 1) as nat);
        let p = padded_hex(v / 16, (width - 1) as nat);
        assert forall|i: int| 0 <= i < width implies ('0' <= #[trigger] padded_hex(v, width)[i]
            <= '9') || ('a' <= padded_hex(v, width)[i] <= 'f') by {
            if i < width - 1 {
                assert(padded_hex(v, width)[i] == p[i]);
            }
        }
    }
}

/// Every digest is `sha256:` followed by 64 lower-case hex digits, and names
/// with equal UTF-8 bytes have equal digests.
pub proof fn lemma_digest_shape(name: Seq<char>)
    ensures
        digest_spec(name).len() == 71,
        digest_spec(name).subrange(0, 7) == "sha256:"@,
        forall|i: int|
            7 <= i < 71 ==> ('0' <= #[trigger] digest_spec(name)[i] <= '9') || ('a'
                <= digest_spec(name)[i] <= 'f'),
{
    reveal_strlit("sha256:");
    let h = padded_hex(byte_sum(vstd::utf8::encode_utf8(name)) as nat, 64);
    lemma_padded_hex(byte_sum(vstd::utf8::encode_utf8(name)) as nat, 64);
    assert(digest_spec(name).subrange(0, 7) =~= "sha256:"@);
    assert forall|i: int| 7 <= i < 71 implies ('0' <= #[trigger] digest_spec(name)[i] <= '9') || (
    'a' <= digest_spec(name)[i] <= 'f') by {
        assert(digest_spec(name)[i] == h[i - 7]);
    }
}

/// The details shown for every model.
#[derive(Clone, Debug, PartialEq, Eq)]
pub struct ModelDetails {
    pub parent_model: String,
    pub format: String,
    pub family: String,
    pub families: Option<Vec<String>>,
    pub parameter_size: String,
    pub quantization_level: String,
}

pub open spec fn rkllm_details_spec(d: ModelDetails) -> bool {
    &&& d.parent_model@ == ""@
    &&& d.format@ == "rkllm"@
    &&& d.family@ == "rkllm"@
    &&& d.families matches Some(f) && f.deep_view() == seq!["rkllm"@]
    &&& d.parameter_size@ == "unknown"@
    &&& d.quantization_level@ == "unknown"@
}

/// The details of an RKLLM model: format and family `rkllm`, size and
/// quantization unknown.
pub fn rkllm_details() -> (r: ModelDetails)
    ensures
        rkllm_details_spec(r),
{
    let mut families: Vec<String> = Vec::new();
    families.push(String::from_str("rkllm"));
    assert(families.deep_view() =~= seq!["rkllm"@]);
    ModelDetails {
        parent_model: String::from_str(""),
        format: String::from_str("rkllm"),
        family: String::from_str("rkllm"),
        families: Some(families),
        parameter_size: String::from_str("unknown"),
        quantization_level: String::from_str("unknown"),
    }
}

/// One entry of the model list.
#[derive(Clone, Debug, PartialEq, Eq)]
pub struct ModelInfo {
    pub name: String,
    pub model: String,
    pub modified_at: String,
    pub size: u64,
    pub digest: String,
    pub details: ModelDetails,
}

/// `info` describes the model `name` of `size` bytes, stamped `modified_at`.
pub open spec fn model_info_spec(info: ModelInfo, name: Seq<char>, size: u64, modified_at: Seq<char>) -> bool {
    &&& info.name@ == name
    &&& info.model@ == name
    &&& info.modified_at@ == modified_at
    &&& info.size == size
    &&& info.digest@ == digest_spec(name)
    &&& rkllm_details_spec(info.details)
}

/// The entry for a model, stamped with the given time.
pub fn model_info_at(name: &str, size: u64, modified_at: String) -> (r: ModelInfo)
    ensures
        model_info_spec(r, name@, size, modified_at@),
{
    ModelInfo {
        name: owned(name),
        model: owned(name),
        modified_at,
        size,
        digest: model_digest(name),
        details: rkllm_details(),
    }
}

/// Whether `s` is the RFC 3339 text of some clock reading (moved by
/// `offset` seconds): what holds of every stamp, whatever the clock read.
pub open spec fn is_clock_text(s: Seq<char>, offset: int) -> bool {
    exists|c: ClockReading| c.nanos < 1_000_000_000 && rfc3339_after_spec(c, offset) == Some(s)
}

/// The current time in RFC 3339 form; `None` when the clock reads before
/// 1970 or beyond chrono's range.
pub fn now_rfc3339() -> (r: Option<String>)
    ensures
        r matches Some(s) ==> is_clock_text(s@, 0) && s@.len() >= 25 && ends_with_utc_offset(s@),
{
    match read_clock() {
        Some(c) => {
            let t = rfc3339_after(c, 0);
            assert(opt_text(t) == rfc3339_after_spec(c, 0));
            t
        },
        None => None,
    }
}

/// A model found in a listing, with the size of its file when that could
/// be read.
#[derive(Clone, Debug, PartialEq, Eq)]
pub struct ModelEntry {
    pub name: String,
    pub size: Option<u64>,
}

pub open spec fn size_or_zero(size: Option<u64>) -> u64 {
    match size {
        Some(s) => s,
        None => 0,
    }
}

/// The answer to a model-list request.
#[derive(Clone, Debug, PartialEq, Eq)]
pub struct TagsResponse {
    pub models: Vec<ModelInfo>,
}

/// `r` lists the entries, each with its size (0 when unknown), all stamped
/// `modified_at`.
pub open spec fn tags_spec(r: TagsResponse, entries: Seq<ModelEntry>, modified_at: Seq<char>) -> bool {
    &&& r.models.len() == entries.len()
    &&& forall|i: int|
        0 <= i < entries.len() ==> model_info_spec(
            #[trigger] r.models@[i],
            entries[i].name@,
            size_or_zero(entries[i].size),
            modified_at,
        )
}

/// Lists the models, stamped with the given time.
pub fn tags_response_stamped(entries: &Vec<ModelEntry>, modified_at: &String) -> (r: TagsResponse)
    ensures
        tags_spec(r, entries@, modified_at@),
{
    let mut models: Vec<ModelInfo> = Vec::new();
    let n = entries.len();
    for i in 0..n
        invariant
            n == entries.len(),
            models.len() == i,
            forall|j: int|
                0 <= j < i ==> model_info_spec(
                    #[trigger] models@[j],
                    entries@[j].name@,
                    size_or_zero(entries@[j].size),
                    modified_at@,
                ),
    {
        let size = match entries[i].size {
            Some(s) => s,
            None => 0,
        };
        models.push(model_info_at(entries[i].name.as_str(), size, modified_at.clone()));
    }
    TagsResponse { models }
}

/// Lists the models, stamped with the time of the reading `now`. An empty
/// list needs no stamp; otherwise `None` when that time is outside chrono's
/// range.
pub fn tags_response_at(entries: &Vec<ModelEntry>, now: ClockReading) -> (r: Option<TagsResponse>)
    ensures
        match rfc3339_after_spec(now, 0) {
            Some(t) => r matches Some(resp) && tags_spec(resp, entries@, t),
            None => if entries.len() == 0 {
                r matches Some(resp) && resp.models.len() == 0
            } else {
                r is None
            },
        },
        now.nanos < 1_000_000_000 && now.secs <= last_second_of_9999() ==> r is Some,
{
    if entries.len() == 0 {
        return Some(TagsResponse { models: Vec::new() });
    }
    match rfc3339_after(now, 0) {
        Some(t) => Some(tags_response_stamped(entries, &t)),
        None => None,
    }
}

/// Lists the models, stamped with the current time. An empty list is
/// answered without reading the clock; otherwise `None` when the clock
/// cannot be read or rendered.
pub fn tags_response(entries: &Vec<ModelEntry>) -> (r: Option<TagsResponse>)
    ensures
        entries.len() == 0 ==> (r matches Some(resp) && resp.models.len() == 0),
        r matches Some(resp) ==> (entries.len() > 0 ==> tags_spec(
            resp,
            entries@,
            resp.models@[0].modified_at@,
        ) && is_clock_text(resp.models@[0].modified_at@, 0)),
{
    if entries.len() == 0 {
        return Some(TagsResponse { models: Vec::new() });
    }
    match read_clock() {
        Some(c) => {
            let r = tags_response_at(entries, c);
            proof {
                if let Some(t) = rfc3339_after_spec(c, 0) {
                    assert(r matches Some(resp) && tags_spec(resp, entries@, t));
                }
            }
            r
        },
        None => None,
    }
}

/// One model reported as running.
#[derive(Clone, Debug, PartialEq, Eq)]
pub struct RunningModelInfo {
    pub name: String,
    pub model: String,
    pub size: u64,
    pub digest: String,
    pub details: ModelDetails,
    pub expires_at: String,
    pub size_vram: u64,
}

/// `info` describes the model `name` of `size` bytes, expiring at `expires_at`.
pub open spec fn running_info_spec(info: RunningModelInfo, name: Seq<char>, size: u64, expires_at: Seq<char>) -> bool {
    &&& info.name@ == name
    &&& info.model@ == name
    &&& info.size == size
    &&& info.digest@ == digest_spec(name)
    &&& rkllm_details_spec(info.details)
    &&& info.expires_at@ == expires_at
    &&& info.size_vram == size
}

/// The running-model entry for a model, with the given expiry time.
pub fn running_model_info_at(name: &str, size: u64, expires_at: String) -> (r: RunningModelInfo)
    ensures
        running_info_spec(r, name@, size, expires_at@),
{
    RunningModelInfo {
        name: owned(name),
        model: owned(name),
        size,
        digest: model_digest(name),
        details: rkllm_details(),
        expires_at,
        size_vram: size,
    }
}

/// The answer to a running-models request.
#[derive(Clone, Debug, PartialEq, Eq)]
pub struct RunningModelsResponse {
    pub models: Vec<RunningModelInfo>,
}

/// The entries whose size is known, with that size.
pub open spec fn sized_entries(entries: Seq<ModelEntry>) -> Seq<(Seq<char>, u64)>
    decreases entries.len(),
{
    if entries.len() == 0 {
        seq![]
    } else {
        let prev = sized_entries(entries.drop_last());
        match entries.last().size {
            Some(s) => prev.push((entries.last().name@, s)),
            None => prev,
        }
    }
}

/// `r` reports the sized entries as running, all expiring at `expires_at`.
pub open spec fn running_spec(r: RunningModelsResponse, entries: Seq<ModelEntry>, expires_at: Seq<char>) -> bool {
    &&& r.models.len() == sized_entries(entries).len()
    &&& forall|i: int|
        0 <= i < r.models.len() ==> running_info_spec(
            #[trigger] r.models@[i],
            sized_entries(entries)[i].0,
            sized_entries(entries)[i].1,
            expires_at,
        )
}

/// How long a model counts as running: five minutes, in seconds.
pub open spec fn running_lifetime_secs() -> int {
    300
}

/// Whether some entry has a measured size.
pub fn has_sized_entry(entries: &Vec<ModelEntry>) -> (r: bool)
    ensures
        r == (sized_entries(entries@).len() > 0),
{
    let n = entries.len();
    let mut found = false;
    for i in 0..n
        invariant
            n == entries.len(),
            found == (sized_entries(entries@.take(i as int)).len() > 0),
    {
        assert(entries@.take(i + 1).drop_last() =~= entries@.take(i as int));
        assert(entries@.take(i + 1).last() == entries@[i as int]);
        if entries[i].size.is_some() {
            found = true;
        }
    }
    assert(entries@.take(n as int) =~= entries@);
    found
}

/// Reports the sized entries as running, expiring at the given time.
pub fn running_models_expiring(entries: &Vec<ModelEntry>, expires_at: &String) -> (r: RunningModelsResponse)
    ensures
        running_spec(r, entries@, expires_at@),
{
    let mut models: Vec<RunningModelInfo> = Vec::new();
    let n = entries.len();
    for i in 0..n
        invariant
            n == entries.len(),
            models.len() == sized_entries(entries@.take(i as int)).len(),
            forall|j: int|
                0 <= j < models.len() ==> running_info_spec(
                    #[trigger] models@[j],
                    sized_entries(entries@.take(i as int))[j].0,
                    sized_entries(entries@.take(i as int))[j].1,
                    expires_at@,
                ),
    {
        let ghost prev = sized_entries(entries@.take(i as int));
        assert(entries@.take(i + 1).drop_last() =~= entries@.take(i as int));
        assert(entries@.take(i + 1).last() == entries@[i as int]);
        if let Some(size) = entries[i].size {
            models.push(running_model_info_at(entries[i].name.as_str(), size, expires_at.clone()));
            let ghost cur = sized_entries(entries@.take(i + 1));
            assert forall|j: int| 0 <= j < models.len() implies running_info_spec(
                #[trigger] models@[j],
                cur[j].0,
                cur[j].1,
                expires_at@,
            ) by {
                if j < models.len() - 1 {
                    assert(cur[j] == prev[j]);
                }
            }
        }
    }
    assert(entries@.take(n as int) =~= entries@);
    RunningModelsResponse { models }
}

/// Models are loaded per request, so every model whose file could be
/// measured is reported as ready, expiring five minutes after the reading
/// `now`. Without a measured model the answer is an empty list; otherwise
/// `None` when the expiry is outside chrono's range.
pub fn running_models_response_at(entries: &Vec<ModelEntry>, now: ClockReading) -> (r: Option<RunningModelsResponse>)
    ensures
        match rfc3339_after_spec(now, running_lifetime_secs()) {
            Some(t) => r matches Some(resp) && running_spec(resp, entries@, t),
            None => if sized_entries(entries@).len() == 0 {
                r matches Some(resp) && resp.models.len() == 0
            } else {
                r is None
            },
        },
        now.nanos < 1_000_000_000 && now.secs + running_lifetime_secs() <= last_second_of_9999()
            ==> r is Some,
{
    if !has_sized_entry(entries) {
        return Some(RunningModelsResponse { models: Vec::new() });
    }
    match rfc3339_after(now, 300) {
        Some(t) => Some(running_models_expiring(entries, &t)),
        None => None,
    }
}

/// The running models, expiring five minutes from now. The clock is read
/// only when some model was measured, so without one the answer is an empty
/// list; otherwise `None` when the clock cannot be read or rendered.
pub fn running_models_response(entries: &Vec<ModelEntry>) -> (r: Option<RunningModelsResponse>)
    ensures
        sized_entries(entries@).len() == 0 ==> (r matches Some(resp) && resp.models.len() == 0),
        r matches Some(resp) ==> resp.models.len() == sized_entries(entries@).len(),
        r matches Some(resp) ==> (sized_entries(entries@).len() > 0 ==> running_spec(
            resp,
            entries@,
            resp.models@[0].expires_at@,
        ) && is_clock_text(resp.models@[0].expires_at@, running_lifetime_secs())),
{
    if !has_sized_entry(entries) {
        return Some(RunningModelsResponse { models: Vec::new() });
    }
    match read_clock() {
        Some(c) => {
            let r = running_models_response_at(entries, c);
            proof {
                if let Some(t) = rfc3339_after_spec(c, running_lifetime_secs()) {
                    assert(r matches Some(resp) && running_spec(resp, entries@, t));
                }
            }
            r
        },
        None => None,
    }
}

/// The detail view of one model.
#[derive(Clone, Debug, PartialEq, Eq)]
pub struct ShowResponse {
    pub modelfile: String,
    pub parameters: String,
    pub template: String,
    pub details: ModelDetails,
    pub model_info: ModelInfo,
    pub capabilities: Vec<String>,
}

pub open spec fn show_spec(r: ShowResponse, model: Seq<char>, size: u64, modified_at: Seq<char>) -> bool {
    &&& r.modelfile@ == "FROM "@ + model + "\nPARAMETER temperature 0.8\nPARAMETER top_p 0.9"@
    &&& r.parameters@ == "temperature 0.8\ntop_p 0.9\ntop_k 40\nrepeat_penalty 1.1"@
    &&& r.template@
        == "{{ if .System }}System: {{ .System }}\n\n{{ end }}{{ if .Prompt }}User: {{ .Prompt }}\n\nAssistant: {{ end }}"@
    &&& rkllm_details_spec(r.details)
    &&& model_info_spec(r.model_info, model, size, modified_at)
    &&& r.capabilities.deep_view() == seq!["completion"@, "chat"@]
}

/// The detail view of a model whose file has `size` bytes, stamped with the
/// given time.
pub fn show_response_at(model: &str, size: u64, modified_at: String) -> (r: ShowResponse)
    ensures
        show_spec(r, model@, size, modified_at@),
{
    let mut capabilities: Vec<String> = Vec::new();
    capabilities.push(String::from_str("completion"));
    capabilities.push(String::from_str("chat"));
    assert(capabilities.deep_view() =~= seq!["completion"@, "chat"@]);
    ShowResponse {
        modelfile: concat3("FROM ", model, "\nPARAMETER temperature 0.8\nPARAMETER top_p 0.9"),
        parameters: String::from_str("temperature 0.8\ntop_p 0.9\ntop_k 40\nrepeat_penalty 1.1"),
        template: String::from_str(
            "{{ if .System }}System: {{ .System }}\n\n{{ end }}{{ if .Prompt }}User: {{ .Prompt }}\n\nAssistant: {{ end }}",
        ),
        details: rkllm_details(),
        model_info: model_info_at(model, size, modified_at),
        capabilities,
    }
}

/// The detail view of a model, stamped with the current time; `None` when
/// the clock cannot be read or rendered.
pub fn show_response(model: &str, size: u64) -> (r: Option<ShowResponse>)
    ensures
        r matches Some(resp) ==> show_spec(resp, model@, size, resp.model_info.modified_at@)
            && is_clock_text(resp.model_info.modified_at@, 0),
{
    match now_rfc3339() {
        Some(t) => Some(show_response_at(model, size, t)),
        None => None,
    }
}

/// The answer to a detail request: refused as a missing model when the
/// lookup found no file, otherwise the detail view with the file's size (0
/// when it could not be read); `Ok(None)` when the clock cannot be read or
/// rendered.
pub fn show_for_lookup(model: &str, found: bool, size: Option<u64>) -> (r: Result<
    Option<ShowResponse>,
    RequestError,
>)
    ensures
        !found ==> r == Err::<Option<ShowResponse>, RequestError>(RequestError::ModelNotFound),
        found ==> (r matches Ok(o) && (o matches Some(resp) ==> show_spec(
            resp,
            model@,
            size_or_zero(size),
            resp.model_info.modified_at@,
        ) && is_clock_text(resp.model_info.modified_at@, 0))),
{
    if !found {
        return Err(RequestError::ModelNotFound);
    }
    let bytes = match size {
        Some(b) => b,
        None => 0,
    };
    Ok(show_response(model, bytes))
}

/// The message for a request to an endpoint that does not exist.
pub fn not_found_message(uri: &str) -> (r: String)
    ensures
        r@ == "Endpoint '"@ + uri@ + "' not found"@,
{
    concat3("Endpoint '", uri, "' not found")
}


/// Where each sized entry stands among the entries: increasing positions
/// of entries with that name and that measured size.
pub open spec fn sized_positions(entries: Seq<ModelEntry>, idx: Seq<int>) -> bool {
    &&& idx.len() == sized_entries(entries).len()
    &&& forall|a: int, b: int| 0 <= a < b < idx.len() ==> #[trigger] idx[a] < #[trigger] idx[b]
    &&& forall|i: int|
        0 <= i < idx.len() ==> {
            &&& 0 <= #[trigger] idx[i] < entries.len()
            &&& entries[idx[i]].name@ == sized_entries(entries)[i].0
            &&& entries[idx[i]].size == Some(sized_entries(entries)[i].1)
        }
}

proof fn lemma_sized_positions(entries: Seq<ModelEntry>) -> (idx: Seq<int>)
    ensures
        sized_positions(entries, idx),
    decreases entries.len(),
{
    if entries.len() == 0 {
        seq![]
    } else {
        let pe = entries.drop_last();
        let prev = lemma_sized_positions(pe);
        let n = entries.len() - 1;
        assert forall|i: int| 0 <= i < prev.len() implies entries[#[trigger] prev[i]] == pe[prev[i]] by {}
        match entries.last().size {
            Some(sz) => {
                let idx = prev.push(n);
                assert forall|a: int, b: int| 0 <= a < b < idx.len() implies #[trigger] idx[a]
                    < #[trigger] idx[b] by {
                    if b < prev.len() {
                        assert(idx[a] == prev[a] && idx[b] == prev[b]);
                    } else {
                        assert(idx[a] == prev[a]);
                    }
                }
                assert forall|i: int| 0 <= i < idx.len() implies {
                    &&& 0 <= #[trigger] idx[i] < entries.len()
                    &&& entries[idx[i]].name@ == sized_entries(entries)[i].0
                    &&& entries[idx[i]].size == Some(sized_entries(entries)[i].1)
                } by {
                    if i < prev.len() {
                        assert(idx[i] == prev[i]);
                        assert(sized_entries(entries)[i] == sized_entries(pe)[i]);
                    }
                }
                idx
            },
            None => {
                assert forall|i: int| 0 <= i < prev.len() implies {
                    &&& 0 <= #[trigger] prev[i] < entries.len()
                    &&& entries[prev[i]].name@ == sized_entries(entries)[i].0
                    &&& entries[prev[i]].size == Some(sized_entries(entries)[i].1)
                } by {}
                prev
            },
        }
    }
}

/// The running models are among the listed ones: for the same entries, the
/// models reported as running are, in order, a selection of the models in
/// the list, each with the same name, size and digest as its list entry.
pub proof fn lemma_running_models_are_listed(
    tags: TagsResponse,
    running: RunningModelsResponse,
    entries: Seq<ModelEntry>,
    modified_at: Seq<char>,
    expires_at: Seq<char>,
)
    requires
        tags_spec(tags, entries, modified_at),
        running_spec(running, entries, expires_at),
    ensures
        exists|idx: Seq<int>|
            {
                &&& idx.len() == running.models.len()
                &&& forall|a: int, b: int|
                    0 <= a < b < idx.len() ==> #[trigger] idx[a] < #[trigger] idx[b]
                &&& forall|i: int|
                    0 <= i < idx.len() ==> {
                        &&& 0 <= #[trigger] idx[i] < tags.models.len()
                        &&& tags.models@[idx[i]].name@ == running.models@[i].name@
                        &&& tags.models@[idx[i]].size == running.models@[i].size
                        &&& tags.models@[idx[i]].digest@ == running.models@[i].digest@
                    }
            },
{
    let idx = lemma_sized_positions(entries);
    assert forall|i: int| 0 <= i < idx.len() implies {
        &&& 0 <= #[trigger] idx[i] < tags.models.len()
        &&& tags.models@[idx[i]].name@ == running.models@[i].name@
        &&& tags.models@[idx[i]].size == running.models@[i].size
        &&& tags.models@[idx[i]].digest@ == running.models@[i].digest@
    } by {
        assert(running_info_spec(
            running.models@[i],
            sized_entries(entries)[i].0,
            sized_entries(entries)[i].1,
            expires_at,
        ));
        assert(model_info_spec(
            tags.models@[idx[i]],
            entries[idx[i]].name@,
            size_or_zero(entries[idx[i]].size),
            modified_at,
        ));
    }
}

} // verus!
