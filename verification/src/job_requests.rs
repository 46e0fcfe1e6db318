//! The decisions of the generation and media channels: which requests are
//! refused and with which reply, which catalog asset a request names, what a
//! submitted, listed, cancelled or retried job answers, and when waiting for a
//! job ends and how.

use vstd::prelude::*;
use crate::json::{
    Json, JsonV, get_text, jget, get_entry, object_of, entries_of, lemma_entries_view, copy_json,
    items_view,
};
use crate::text::{trim, owned, str_eq, clone_string};
use crate::generation::{tstr, obj2, array_of, asset_id_of, JobPool, job_status, job_finished, with_field};
use crate::media::MediaAsset;

verus! {

/// The trimmed text of a request field (empty when it is not text).
pub open spec fn trimmed_field(p: JsonV, key: Seq<char>) -> Seq<char> {
    trim(match get_text(p, key) {
        Some(t) => t,
        None => Seq::empty(),
    })
}

/// A refusal: `{"success": false, "error": msg}`.
pub open spec fn failure(msg: Seq<char>) -> JsonV {
    JsonV::Object(seq![("success"@, JsonV::Bool(false)), ("error"@, tstr(msg))])
}

fn failure_reply(msg: &str) -> (r: Json)
    ensures
        r@ == failure(msg@),
{
    obj2("success", Json::Bool(false), "error", Json::text(msg))
}

fn push_field(e: &mut Vec<(String, Json)>, k: &str, v: Json)
    ensures
        entries_of(*final(e)) == entries_of(*old(e)).push((k@, v@)),
{
    let ghost vv = v@;
    proof { lemma_entries_view(e@, e@.len()); }
    e.push((owned(k), v));
    proof { lemma_entries_view(e@, e@.len()); }
    assert(entries_of(*e) =~= entries_of(*old(e)).push((k@, vv)));
}

fn trimmed_text(payload: &Json, key: &str) -> (r: String)
    ensures
        r@ == trimmed_field(payload@, key@),
{
    match payload.get_str(key) {
        Some(t) => crate::text::trim_str(t.as_str()),
        None => {
            proof {
                assert(trim(Seq::<char>::empty()) =~= Seq::<char>::empty());
            }
            String::new()
        },
    }
}

/// The asset a media update, delete or open request names: its trimmed
/// `assetId`, or the refusal `assetId is required` when that is empty.
pub fn media_asset_request(payload: &Json) -> (r: Result<String, Json>)
    ensures
        trimmed_field(payload@, "assetId"@).len() > 0 ==> r is Ok && r->Ok_0@ == trimmed_field(payload@, "assetId"@),
        trimmed_field(payload@, "assetId"@).len() == 0 ==> r is Err && r->Err_0@ == failure("assetId is required"@),
{
    let id = asset_id_of(payload);
    if crate::text::chars_of(id.as_str()).len() == 0 {
        Err(failure_reply("assetId is required"))
    } else {
        Ok(id)
    }
}

/// What a media bind request names: the trimmed `assetId` and
/// `manuscriptPath`, or the refusal `assetId and manuscriptPath are
/// required` when either is empty.
pub fn media_bind_request(payload: &Json) -> (r: Result<(String, String), Json>)
    ensures
        ({
            let a = trimmed_field(payload@, "assetId"@);
            let m = trimmed_field(payload@, "manuscriptPath"@);
            &&& (a.len() > 0 && m.len() > 0) ==> r is Ok && r->Ok_0.0@ == a && r->Ok_0.1@ == m
            &&& (a.len() == 0 || m.len() == 0) ==> r is Err
                && r->Err_0@ == failure("assetId and manuscriptPath are required"@)
        }),
{
    let a = trimmed_text(payload, "assetId");
    let m = trimmed_text(payload, "manuscriptPath");
    if crate::text::chars_of(a.as_str()).len() == 0 || crate::text::chars_of(m.as_str()).len() == 0 {
        Err(failure_reply("assetId and manuscriptPath are required"))
    } else {
        Ok((a, m))
    }
}

/// The refusal of a bind request whose manuscript does not exist.
pub fn manuscript_missing() -> (r: Json)
    ensures
        r@ == failure("Manuscript not found"@),
{
    failure_reply("Manuscript not found")
}

/// Where the catalog holds the asset of an id: the first asset with that id,
/// or the refusal `Media asset not found` when none has it.
pub fn asset_position(assets: &Vec<MediaAsset>, id: &str) -> (r: Result<usize, Json>)
    ensures
        match r {
            Ok(i) => i < assets@.len() && assets@[i as int].id@ == id@
                && forall|k: int| 0 <= k < i ==> (#[trigger] assets@[k]).id@ != id@,
            Err(e) => e@ == failure("Media asset not found"@)
                && forall|k: int| 0 <= k < assets@.len() ==> (#[trigger] assets@[k]).id@ != id@,
        },
{
    let mut i: usize = 0;
    while i < assets.len()
        invariant
            i <= assets@.len(),
            forall|k: int| 0 <= k < i ==> (#[trigger] assets@[k]).id@ != id@,
        decreases assets.len() - i,
    {
        if str_eq(assets[i].id.as_str(), id) {
            return Ok(i);
        }
        i += 1;
    }
    Err(failure_reply("Media asset not found"))
}

/// The answer to a deleted asset: its id and relative path.
pub open spec fn deleted_entries(id: Seq<char>, relative_path: Option<Seq<char>>) -> Seq<(Seq<char>, JsonV)> {
    seq![
        ("success"@, JsonV::Bool(true)),
        ("deleted"@, JsonV::Object(seq![
            ("id"@, tstr(id)),
            ("relativePath"@, match relative_path {
                Some(p) => tstr(p),
                None => JsonV::Null,
            }),
        ])),
    ]
}

/// The answer to a deleted asset.
pub fn deleted_reply(asset: &MediaAsset) -> (r: Json)
    ensures
        r@ == JsonV::Object(deleted_entries(asset.id@, crate::generation::opt_view(asset.relative_path))),
{
    let path = match &asset.relative_path {
        Some(p) => Json::from_string(clone_string(p)),
        None => Json::Null,
    };
    let ghost rp = crate::generation::opt_view(asset.relative_path);
    assert(path@ == match rp { Some(p) => tstr(p), None => JsonV::Null });
    let inner = obj2("id", Json::from_string(clone_string(&asset.id)), "relativePath", path);
    let ghost want = seq![
        ("id"@, tstr(asset.id@)),
        ("relativePath"@, match rp { Some(p) => tstr(p), None => JsonV::Null }),
    ];
    assert(inner@ == JsonV::Object(want)) by {
        if let JsonV::Object(e) = inner@ {
            assert(e =~= want);
        }
    }
    let r = obj2("success", Json::Bool(true), "deleted", inner);
    assert(r@ == JsonV::Object(deleted_entries(asset.id@, rp))) by {
        if let JsonV::Object(e) = r@ {
            assert(e =~= deleted_entries(asset.id@, rp));
        }
    }
    r
}

/// The answer to a submitted job: `{"success": true, "jobId", "status":
/// "pending", "job"}`.
pub open spec fn submitted_entries(id: Seq<char>, job: JsonV) -> Seq<(Seq<char>, JsonV)> {
    seq![
        ("success"@, JsonV::Bool(true)),
        ("jobId"@, tstr(id)),
        ("status"@, tstr("pending"@)),
        ("job"@, job),
    ]
}

/// The answer to a submitted job.
pub fn submitted_reply(id: &str, job: Json) -> (r: Json)
    ensures
        r@ == JsonV::Object(submitted_entries(id@, job@)),
{
    let mut e: Vec<(String, Json)> = Vec::new();
    proof { lemma_entries_view(e@, 0); }
    push_field(&mut e, "success", Json::Bool(true));
    push_field(&mut e, "jobId", Json::text(id));
    push_field(&mut e, "status", Json::text("pending"));
    let ghost jv = job@;
    push_field(&mut e, "job", job);
    assert(entries_of(e) =~= submitted_entries(id@, jv));
    object_of(e)
}

/// The job id a request names (empty when it names none).
pub open spec fn job_id_of(p: JsonV) -> Seq<char> {
    match get_text(p, "jobId"@) {
        Some(t) => t,
        None => Seq::empty(),
    }
}

fn job_id_exec(payload: &Json) -> (r: String)
    ensures
        r@ == job_id_of(payload@),
{
    match payload.get_str("jobId") {
        Some(t) => clone_string(t),
        None => String::new(),
    }
}

/// The job a request names, or null.
pub open spec fn named_job(jobs: Seq<(Seq<char>, JsonV)>, p: JsonV) -> JsonV {
    match get_entry(jobs, job_id_of(p)) {
        Some(j) => j,
        None => JsonV::Null,
    }
}

/// The answer to a job lookup: the job the request names, or null.
pub fn job_reply(pool: &JobPool, payload: &Json) -> (r: Json)
    ensures
        r@ == named_job(pool.view(), payload@),
{
    let id = job_id_exec(payload);
    match pool.get(id.as_str()) {
        Some(j) => copy_json(j),
        None => Json::Null,
    }
}

/// The artifacts of the job a request names (an empty list when there is no
/// such job or it has none).
pub open spec fn named_artifacts(jobs: Seq<(Seq<char>, JsonV)>, p: JsonV) -> JsonV {
    match get_entry(jobs, job_id_of(p)) {
        Some(j) => match jget(j, "artifacts"@) {
            Some(a) => a,
            None => JsonV::Array(Seq::empty()),
        },
        None => JsonV::Array(Seq::empty()),
    }
}

/// The answer to an artifacts lookup: `{"success": true, "artifacts"}`.
pub fn job_artifacts_reply(pool: &JobPool, payload: &Json) -> (r: Json)
    ensures
        r@ == JsonV::Object(seq![("success"@, JsonV::Bool(true)), ("artifacts"@, named_artifacts(pool.view(), payload@))]),
{
    let id = job_id_exec(payload);
    let empty: Vec<Json> = Vec::new();
    let artifacts = match pool.get(id.as_str()) {
        Some(j) => match j.get("artifacts") {
            Some(a) => copy_json(a),
            None => array_of(empty),
        },
        None => array_of(empty),
    };
    obj2("success", Json::Bool(true), "artifacts", artifacts)
}

/// The jobs of a pool, in their order.
pub open spec fn pool_jobs(jobs: Seq<(Seq<char>, JsonV)>) -> Seq<JsonV> {
    jobs.map_values(|e: (Seq<char>, JsonV)| e.1)
}

/// The answer to a job listing: `{"success": true, "items"}` with every job.
pub fn jobs_list_reply(pool: &JobPool) -> (r: Json)
    ensures
        r@ == JsonV::Object(seq![("success"@, JsonV::Bool(true)), ("items"@, JsonV::Array(pool_jobs(pool.view())))]),
{
    let items = pool.list();
    let ghost iv = items@;
    let a = array_of(items);
    assert(items_view(iv, iv.len()) =~= pool_jobs(pool.view()));
    obj2("success", Json::Bool(true), "items", a)
}

/// Cancels or retries the job a request names: its status becomes `status`
/// when the pool has it; the answer is `{"ok": true}` either way.
pub fn control_job(pool: &mut JobPool, payload: &Json, status: &str) -> (r: Json)
    ensures
        match get_entry(old(pool).view(), job_id_of(payload@)) {
            Some(j) => final(pool).view() == crate::json::set_entry(old(pool).view(), job_id_of(payload@),
                with_field(j, "status"@, tstr(status@))),
            None => final(pool).view() == old(pool).view(),
        },
        r@ == JsonV::Object(seq![("ok"@, JsonV::Bool(true))]),
{
    let id = job_id_exec(payload);
    pool.set_status(id.as_str(), status);
    let mut e: Vec<(String, Json)> = Vec::new();
    proof { lemma_entries_view(e@, 0); }
    push_field(&mut e, "ok", Json::Bool(true));
    object_of(e)
}

/// How waiting for a job ends, seen with the job as it is now (null when the
/// pool has none): a finished job (completed, failed or cancelled) ends it,
/// successfully only when completed; otherwise, once the deadline has passed,
/// it ends with the timeout error; otherwise waiting goes on (`None`).
pub open spec fn await_outcome(job: JsonV, timed_out: bool) -> Option<JsonV> {
    let st = job_status(job);
    if job_finished(st) {
        Some(JsonV::Object(seq![("success"@, JsonV::Bool(st == "completed"@)), ("job"@, job)]))
    } else if timed_out {
        Some(JsonV::Object(seq![
            ("success"@, JsonV::Bool(false)),
            ("error"@, tstr("等待生成任务超时"@)),
            ("job"@, job),
        ]))
    } else {
        None
    }
}

/// One look at a job being waited for.
pub fn await_job_step(job: Json, timed_out: bool) -> (r: Option<Json>)
    ensures
        match r {
            Some(a) => await_outcome(job@, timed_out) == Some(a@),
            None => await_outcome(job@, timed_out) is None,
        },
{
    proof { reveal_strlit("completed"); }
    let st: String = match job.get_str("status") {
        Some(t) => clone_string(t),
        None => String::new(),
    };
    let ghost jv = job@;
    assert(st@ == job_status(jv));
    if crate::generation::job_status_finished(st.as_str()) {
        let done = str_eq(st.as_str(), "completed");
        Some(obj2("success", Json::Bool(done), "job", job))
    } else if timed_out {
        let mut e: Vec<(String, Json)> = Vec::new();
        proof { lemma_entries_view(e@, 0); }
        push_field(&mut e, "success", Json::Bool(false));
        push_field(&mut e, "error", Json::text("等待生成任务超时"));
        push_field(&mut e, "job", job);
        assert(entries_of(e) =~= seq![("success"@, JsonV::Bool(false)), ("error"@, tstr("等待生成任务超时"@)), ("job"@, jv)]);
        Some(object_of(e))
    } else {
        None
    }
}

/// What one image-generation request to a provider URL gave.
pub enum ImageAttempt {
    /// The request could not be sent (or timed out).
    SendFailed(String),
    /// The reply's body could not be read.
    ReadFailed(String),
    /// A reply: whether its status is a success, the status as text, its
    /// content type, its body as text, and the body read as JSON (or why it
    /// is not).
    Reply { success: bool, status: String, content_type: String, body: String, parsed: Result<Json, String> },
}

/// What the image generator does after one attempt.
pub enum ImageStep {
    /// Stop with this error: a request that may still be running upstream
    /// is never sent again to another URL.
    Fail(String),
    /// Use this reply.
    Accept(Json),
    /// Try the next URL, remembering this error.
    Next(String),
}

/// The value of an [`ImageStep`].
pub enum ImageStepV {
    Fail(Seq<char>),
    Accept(JsonV),
    Next(Seq<char>),
}

/// The value of an image step.
pub open spec fn image_step_view(s: ImageStep) -> ImageStepV {
    match s {
        ImageStep::Fail(m) => ImageStepV::Fail(m@),
        ImageStep::Accept(j) => ImageStepV::Accept(j@),
        ImageStep::Next(m) => ImageStepV::Next(m@),
    }
}

/// The step after an attempt on `url`: a send or read failure stops the
/// generator; an accepted JSON reply is used; an invalid JSON reply or a
/// refused reply moves on to the next URL with its error.
pub open spec fn image_step_of(url: Seq<char>, a: ImageAttempt) -> ImageStepV {
    match a {
        ImageAttempt::SendFailed(e) => ImageStepV::Fail("图片生成请求失败（"@ + url + "）: "@ + e@),
        ImageAttempt::ReadFailed(e) => ImageStepV::Fail("读取图片生成响应失败（"@ + url + "）: "@ + e@),
        ImageAttempt::Reply { success, status, content_type, body, parsed } =>
            if success && crate::text::contains_seq(crate::text::unicode_lower(content_type@), "json"@) {
                match parsed {
                    Ok(v) => ImageStepV::Accept(v@),
                    Err(e) => ImageStepV::Next(url + " 返回无效 JSON: "@ + e@),
                }
            } else {
                ImageStepV::Next(url + " HTTP "@ + status@ + ": "@ + crate::generation::truncated_body(body@))
            },
    }
}

fn joined3(a: &str, b: &str, c: &str, d: &str) -> (r: String)
    ensures
        r@ == a@ + b@ + c@ + d@,
{
    let mut m: Vec<char> = Vec::new();
    crate::text::append_str(&mut m, a);
    crate::text::append_str(&mut m, b);
    crate::text::append_str(&mut m, c);
    crate::text::append_str(&mut m, d);
    proof { assert(m@ =~= a@ + b@ + c@ + d@); }
    crate::text::string_from_chars(&m)
}

/// The step after an attempt on `url`.
pub fn image_step(url: &str, attempt: ImageAttempt) -> (r: ImageStep)
    ensures
        image_step_view(r) == image_step_of(url@, attempt),
{
    match attempt {
        ImageAttempt::SendFailed(e) => ImageStep::Fail(joined3("图片生成请求失败（", url, "）: ", e.as_str())),
        ImageAttempt::ReadFailed(e) => ImageStep::Fail(joined3("读取图片生成响应失败（", url, "）: ", e.as_str())),
        ImageAttempt::Reply { success, status, content_type, body, parsed } => {
            if crate::generation::json_reply_accepted(success, content_type.as_str()) {
                match parsed {
                    Ok(v) => ImageStep::Accept(v),
                    Err(e) => {
                        let r = joined3(url, " 返回无效 JSON: ", e.as_str(), "");
                        proof { reveal_strlit(""); }
                        assert(r@ =~= url@ + " 返回无效 JSON: "@ + e@);
                        ImageStep::Next(r)
                    },
                }
            } else {
                ImageStep::Next(crate::generation::http_failure_text(url, status.as_str(), body.as_str()))
            }
        },
    }
}

/// The error when no URL gave a usable reply.
pub fn image_urls_exhausted(last_error: &str) -> (r: String)
    ensures
        r@ == "图片生成接口不可用: "@ + last_error@,
{
    let mut m: Vec<char> = Vec::new();
    crate::text::append_str(&mut m, "图片生成接口不可用: ");
    crate::text::append_str(&mut m, last_error);
    crate::text::string_from_chars(&m)
}

} // verus!
