//! The social namespace: chat rooms kept as JSON files, wander history,
//! and the assistant daemon and WeChat official account placeholders. This
//! module holds their rules; the files, the database and the clock stay
//! with the caller.

use vstd::prelude::*;
use crate::text::{
    chars_of, string_from_chars, owned, clone_string, append_str, trim, trim_str, has_prefix,
    has_char, contains_seq, is_ascii_alnum, char_is_ascii_alnum, vec_has_char, contains_str,
};
use crate::json::{
    Json, JsonV, jget, get_text, get_flag, get_int, as_text, object_of, entries_of, set_entry,
    set_entry_exec, lemma_entries_view, lemma_array_view, items_view, copy_json,
};
use crate::strs::views;
use crate::json::get_entry;
use crate::order::{rank_sorted, sort_by_rank, ranked_view, map_items, items_of, first_n, lemma_rank_sorted_map, take_items, text_desc_rank, text_desc_rank_exec};

verus! {

// ---------------------------------------------------------------------------
// Placeholder channels
// ---------------------------------------------------------------------------

/// The social channels whose real work is not wired yet: they answer with
/// complete placeholder structures.
pub open spec fn stub_channel_list() -> Seq<Seq<char>> {
    seq![
        "chatrooms:send"@,
        "wander:brainstorm"@,
        "assistant:daemon-status"@,
        "assistant:daemon-start"@,
        "assistant:daemon-stop"@,
        "assistant:daemon-set-config"@,
        "assistant:daemon-weixin-login-start"@,
        "assistant:daemon-weixin-login-wait"@,
        "wechat-official:get-status"@,
        "wechat-official:bind"@,
        "wechat-official:unbind"@,
        "wechat-official:create-draft"@,
    ]
}

/// The social channels that answer with placeholders.
pub fn stub_channels() -> (r: Vec<String>)
    ensures
        views(r@) == stub_channel_list(),
{
    let mut v: Vec<String> = Vec::new();
    v.push(owned("chatrooms:send"));
    v.push(owned("wander:brainstorm"));
    v.push(owned("assistant:daemon-status"));
    v.push(owned("assistant:daemon-start"));
    v.push(owned("assistant:daemon-stop"));
    v.push(owned("assistant:daemon-set-config"));
    v.push(owned("assistant:daemon-weixin-login-start"));
    v.push(owned("assistant:daemon-weixin-login-wait"));
    v.push(owned("wechat-official:get-status"));
    v.push(owned("wechat-official:bind"));
    v.push(owned("wechat-official:unbind"));
    v.push(owned("wechat-official:create-draft"));
    assert(views(v@) =~= stub_channel_list());
    v
}

/// Every placeholder channel belongs to the social namespace.
pub proof fn lemma_stub_channels_are_social()
    ensures
        forall|i: int| 0 <= i < stub_channel_list().len() ==> {
            let c = #[trigger] stub_channel_list()[i];
            has_prefix(c, "chatrooms:"@) || has_prefix(c, "wander:"@) || has_prefix(c, "assistant:"@)
                || has_prefix(c, "wechat-official:"@)
        },
{
    reveal_strlit("chatrooms:send");
    reveal_strlit("wander:brainstorm");
    reveal_strlit("assistant:daemon-status");
    reveal_strlit("assistant:daemon-start");
    reveal_strlit("assistant:daemon-stop");
    reveal_strlit("assistant:daemon-set-config");
    reveal_strlit("assistant:daemon-weixin-login-start");
    reveal_strlit("assistant:daemon-weixin-login-wait");
    reveal_strlit("wechat-official:get-status");
    reveal_strlit("wechat-official:bind");
    reveal_strlit("wechat-official:unbind");
    reveal_strlit("wechat-official:create-draft");
    reveal_strlit("chatrooms:");
    reveal_strlit("wander:");
    reveal_strlit("assistant:");
    reveal_strlit("wechat-official:");
    let l = stub_channel_list();
    assert(has_prefix(l[0], "chatrooms:"@)) by { assert(l[0].subrange(0, 10) =~= "chatrooms:"@); }
    assert(has_prefix(l[1], "wander:"@)) by { assert(l[1].subrange(0, 7) =~= "wander:"@); }
    assert(has_prefix(l[2], "assistant:"@)) by { assert(l[2].subrange(0, 10) =~= "assistant:"@); }
    assert(has_prefix(l[3], "assistant:"@)) by { assert(l[3].subrange(0, 10) =~= "assistant:"@); }
    assert(has_prefix(l[4], "assistant:"@)) by { assert(l[4].subrange(0, 10) =~= "assistant:"@); }
    assert(has_prefix(l[5], "assistant:"@)) by { assert(l[5].subrange(0, 10) =~= "assistant:"@); }
    assert(has_prefix(l[6], "assistant:"@)) by { assert(l[6].subrange(0, 10) =~= "assistant:"@); }
    assert(has_prefix(l[7], "assistant:"@)) by { assert(l[7].subrange(0, 10) =~= "assistant:"@); }
    assert(has_prefix(l[8], "wechat-official:"@)) by { assert(l[8].subrange(0, 16) =~= "wechat-official:"@); }
    assert(has_prefix(l[9], "wechat-official:"@)) by { assert(l[9].subrange(0, 16) =~= "wechat-official:"@); }
    assert(has_prefix(l[10], "wechat-official:"@)) by { assert(l[10].subrange(0, 16) =~= "wechat-official:"@); }
    assert(has_prefix(l[11], "wechat-official:"@)) by { assert(l[11].subrange(0, 16) =~= "wechat-official:"@); }
}

// ---------------------------------------------------------------------------
// Write gate and payload fields
// ---------------------------------------------------------------------------

/// Whether a social write is carried out: exactly when `confirm` is true.
/// Without it (`dryRun: false` included) the write is only previewed, and
/// `dryRun: true` without `confirm` previews too.
pub open spec fn executes(p: JsonV) -> bool {
    get_flag(p, "confirm"@) == Some(true)
}

/// Whether a social write is carried out.
pub fn should_execute(payload: &Json) -> (r: bool)
    ensures
        r == executes(payload@),
{
    match payload.get_bool("confirm") {
        Some(c) => c,
        None => false,
    }
}

/// Only a confirmed request writes: without `confirm: true` a write is only
/// previewed, whatever `dryRun` says.
pub proof fn lemma_writes_default_to_preview(p: JsonV)
    ensures
        get_flag(p, "confirm"@) != Some(true) ==> !executes(p),
        executes(p) <==> get_flag(p, "confirm"@) == Some(true),
{
}

/// The preview of a write: an object answer gets `success`, `dryRun` and
/// `skipped` set to true; anything else is wrapped as `data`.
pub open spec fn preview_of(d: JsonV) -> JsonV {
    match d {
        JsonV::Object(e) => JsonV::Object(set_entry(set_entry(set_entry(e, "success"@, JsonV::Bool(true)),
            "dryRun"@, JsonV::Bool(true)), "skipped"@, JsonV::Bool(true))),
        _ => JsonV::Object(seq![
            ("success"@, JsonV::Bool(true)),
            ("dryRun"@, JsonV::Bool(true)),
            ("skipped"@, JsonV::Bool(true)),
            ("data"@, d),
        ]),
    }
}

/// The preview of a write.
pub fn dry_preview(data: Json) -> (r: Json)
    ensures
        r@ == preview_of(data@),
{
    let ghost dv = data@;
    match data {
        Json::Object(mut e) => {
            proof { crate::json::lemma_object_view(e); }
            let ghost ev = entries_of(e);
            set_entry_exec(&mut e, "success", Json::Bool(true));
            set_entry_exec(&mut e, "dryRun", Json::Bool(true));
            set_entry_exec(&mut e, "skipped", Json::Bool(true));
            object_of(e)
        },
        other => {
            let mut e: Vec<(String, Json)> = Vec::new();
            e.push((owned("success"), Json::Bool(true)));
            e.push((owned("dryRun"), Json::Bool(true)));
            e.push((owned("skipped"), Json::Bool(true)));
            e.push((owned("data"), other));
            proof { lemma_entries_view(e@, e@.len()); }
            let ghost ev = entries_of(e);
            assert(ev =~= seq![
                ("success"@, JsonV::Bool(true)),
                ("dryRun"@, JsonV::Bool(true)),
                ("skipped"@, JsonV::Bool(true)),
                ("data"@, dv),
            ]);
            object_of(e)
        },
    }
}

/// The id a request names: a bare string, or `roomId`, or `id`.
pub open spec fn id_outcome(p: JsonV) -> Result<Seq<char>, Seq<char>> {
    match as_text(p) {
        Some(s) => Ok(s),
        None => match get_text(p, "roomId"@) {
            Some(s) => Ok(s),
            None => match get_text(p, "id"@) {
                Some(s) => Ok(s),
                None => Err("缺少字段 id/roomId"@),
            },
        },
    }
}

/// The id a request names.
pub fn id_from_payload(payload: &Json) -> (r: Result<String, String>)
    ensures
        crate::schedule::text_result(r) == id_outcome(payload@),
{
    match payload.as_str() {
        Some(s) => {
            return Ok(clone_string(s));
        },
        None => {},
    }
    match payload.get_str("roomId") {
        Some(s) => {
            return Ok(clone_string(s));
        },
        None => {},
    }
    match payload.get_str("id") {
        Some(s) => Ok(clone_string(s)),
        None => Err(owned("缺少字段 id/roomId")),
    }
}

/// A text trimmed, or `default` when nothing is left.
pub open spec fn trimmed_or(s: Seq<char>, default: Seq<char>) -> Seq<char> {
    if trim(s).len() == 0 { default } else { trim(s) }
}

/// A text trimmed, or `default` when nothing is left.
pub fn trim_or_default(s: &str, default: &str) -> (r: String)
    ensures
        r@ == trimmed_or(s@, default@),
{
    let t = trim_str(s);
    if chars_of(t.as_str()).len() == 0 { owned(default) } else { t }
}

/// The non-empty strings among the first `n` items, untrimmed, in order.
pub open spec fn nonempty_texts(items: Seq<JsonV>, n: nat) -> Seq<Seq<char>>
    decreases n,
{
    if n == 0 || n > items.len() {
        Seq::empty()
    } else {
        let prev = nonempty_texts(items, (n - 1) as nat);
        match as_text(items[n - 1]) {
            Some(t) => if t.len() > 0 { prev.push(t) } else { prev },
            None => prev,
        }
    }
}

/// Whether every item is a string.
pub open spec fn all_texts(items: Seq<JsonV>) -> bool {
    forall|i: int| 0 <= i < items.len() ==> (#[trigger] items[i]) is Str
}

/// A string list field: the non-empty strings of an array, or the strings of
/// a JSON array of strings given as text; anything else gives none.
pub open spec fn string_list_of(v: Option<JsonV>) -> Seq<Seq<char>> {
    match v {
        Some(JsonV::Array(items)) => nonempty_texts(items, items.len()),
        Some(JsonV::Str(_, Some(doc))) => match *doc {
            JsonV::Array(items) => if all_texts(items) {
                items.map_values(|j: JsonV| as_text(j)->0)
            } else {
                Seq::empty()
            },
            _ => Seq::empty(),
        },
        _ => Seq::empty(),
    }
}

fn nonempty_texts_exec(items: &Vec<Json>) -> (r: Vec<String>)
    ensures
        views(r@) == nonempty_texts(items_view(items@, items@.len()), items@.len()),
{
    proof { crate::json::lemma_items_view(items@, items@.len()); }
    let ghost iv = items_view(items@, items@.len());
    let mut out: Vec<String> = Vec::new();
    let n = items.len();
    let mut i: usize = 0;
    while i < n
        invariant
            n == items@.len(),
            iv == items_view(items@, items@.len()),
            iv.len() == n,
            forall|k: int| 0 <= k < n ==> #[trigger] iv[k] == items@[k]@,
            i <= n,
            views(out@) == nonempty_texts(iv, i as nat),
        decreases n - i,
    {
        assert(iv[i as int] == items@[i as int]@);
        let ghost before = views(out@);
        match items[i].as_str() {
            Some(s) => {
                if chars_of(s.as_str()).len() > 0 {
                    out.push(clone_string(s));
                    assert(views(out@) =~= before.push(s@));
                }
            },
            None => {},
        }
        i += 1;
    }
    out
}

fn all_text_items(items: &Vec<Json>) -> (r: Option<Vec<String>>)
    ensures
        match r {
            Some(v) => all_texts(items_view(items@, items@.len()))
                && views(v@) == items_view(items@, items@.len()).map_values(|j: JsonV| as_text(j)->0),
            None => !all_texts(items_view(items@, items@.len())),
        },
{
    proof { crate::json::lemma_items_view(items@, items@.len()); }
    let ghost iv = items_view(items@, items@.len());
    let mut out: Vec<String> = Vec::new();
    let n = items.len();
    let mut i: usize = 0;
    while i < n
        invariant
            n == items@.len(),
            iv == items_view(items@, items@.len()),
            iv.len() == n,
            forall|k: int| 0 <= k < n ==> #[trigger] iv[k] == items@[k]@,
            i <= n,
            forall|k: int| 0 <= k < i ==> (#[trigger] iv[k]) is Str,
            views(out@) =~= iv.take(i as int).map_values(|j: JsonV| as_text(j)->0),
        decreases n - i,
    {
        assert(iv[i as int] == items@[i as int]@);
        match items[i].as_str() {
            Some(s) => {
                let ghost before = views(out@);
                out.push(clone_string(s));
                assert(views(out@) =~= before.push(s@));
                assert(iv.take(i + 1) =~= iv.take(i as int).push(iv[i as int]));
            },
            None => {
                return None;
            },
        }
        i += 1;
    }
    assert(iv.take(n as int) =~= iv);
    Some(out)
}

fn no_strings() -> (r: Vec<String>)
    ensures
        views(r@) == Seq::<Seq<char>>::empty(),
{
    let r: Vec<String> = Vec::new();
    assert(views(r@) =~= Seq::<Seq<char>>::empty());
    r
}

/// A string list field of a request.
pub fn opt_str_array(v: &Json, key: &str) -> (r: Vec<String>)
    ensures
        views(r@) == string_list_of(jget(v@, key@)),
{
    match v.get(key) {
        Some(Json::Array(items)) => {
            proof { lemma_array_view(*items); }
            nonempty_texts_exec(items)
        },
        Some(Json::Str(text, Some(doc))) => {
            let ghost dv = (**doc)@;
            assert(jget(v@, key@) == Some(JsonV::Str(text@, Some(Box::new(dv)))));
            match &**doc {
                Json::Array(items) => {
                    proof { lemma_array_view(*items); }
                    assert(dv == JsonV::Array(items_view(items@, items@.len())));
                    match all_text_items(items) {
                        Some(list) => list,
                        None => no_strings(),
                    }
                },
                _ => {
                    assert(!(dv is Array));
                    no_strings()
                },
            }
        },
        Some(other) => {
            assert(!(other@ is Array) && !(other@ matches JsonV::Str(_, Some(_))));
            no_strings()
        },
        None => no_strings(),
    }
}

// ---------------------------------------------------------------------------
// Rooms
// ---------------------------------------------------------------------------

/// The name a room gets when it has none.
pub open spec fn untitled_room() -> Seq<char> {
    "未命名群聊"@
}

/// The id of a stored room: its `id`, or the fallback.
pub open spec fn room_id_of(raw: JsonV, fallback_id: Seq<char>) -> Seq<char> {
    match get_text(raw, "id"@) { Some(s) => s, None => fallback_id }
}

/// The name of a stored room: its trimmed `name`, or the untitled name.
pub open spec fn room_name_of(raw: JsonV) -> Seq<char> {
    match get_text(raw, "name"@) {
        Some(s) => trimmed_or(s, untitled_room()),
        None => untitled_room(),
    }
}

/// The advisor ids of a stored room: the non-empty strings of its array.
pub open spec fn room_advisors_of(raw: JsonV) -> Seq<JsonV> {
    match jget(raw, "advisorIds"@) {
        Some(JsonV::Array(items)) => nonempty_texts(items, items.len()).map_values(|t: Seq<char>| JsonV::Str(t, None)),
        _ => Seq::empty(),
    }
}

/// The messages of a stored room: its array, or an empty one.
pub open spec fn room_messages_of(raw: JsonV) -> JsonV {
    match jget(raw, "messages"@) {
        Some(JsonV::Array(m)) => JsonV::Array(m),
        _ => JsonV::Array(Seq::empty()),
    }
}

/// The fields every stored room has.
pub open spec fn room_base(raw: JsonV, fallback_id: Seq<char>) -> Seq<(Seq<char>, JsonV)> {
    seq![
        ("id"@, JsonV::Str(room_id_of(raw, fallback_id), None)),
        ("name"@, JsonV::Str(room_name_of(raw), None)),
        ("advisorIds"@, JsonV::Array(room_advisors_of(raw))),
        ("messages"@, room_messages_of(raw)),
        ("createdAt"@, JsonV::Str(match get_text(raw, "createdAt"@) { Some(s) => s, None => Seq::empty() }, None)),
        ("isSystem"@, JsonV::Bool(match get_flag(raw, "isSystem"@) { Some(b) => b, None => false })),
    ]
}

/// A room as it is stored: `id` (or the fallback), a trimmed `name` (or
/// the untitled name), the non-empty advisor ids, the messages array (or an
/// empty one), `createdAt` (or empty), `isSystem` (or false), and
/// `systemType` when it is a string.
pub open spec fn normalized_room(raw: JsonV, fallback_id: Seq<char>) -> JsonV {
    match get_text(raw, "systemType"@) {
        Some(st) => JsonV::Object(set_entry(room_base(raw, fallback_id), "systemType"@, JsonV::Str(st, None))),
        None => JsonV::Object(room_base(raw, fallback_id)),
    }
}

fn empty_array() -> (r: Json)
    ensures
        r@ == JsonV::Array(Seq::empty()),
{
    let v: Vec<Json> = Vec::new();
    proof { assert(items_view(v@, 0) =~= Seq::<JsonV>::empty()); }
    Json::Array(v)
}

fn text_values(list: Vec<String>) -> (r: Vec<Json>)
    ensures
        items_view(r@, r@.len()) == views(list@).map_values(|t: Seq<char>| JsonV::Str(t, None)),
{
    let mut out: Vec<Json> = Vec::new();
    let n = list.len();
    let mut i: usize = 0;
    while i < n
        invariant
            n == list@.len(),
            i <= n,
            out@.len() == i,
            forall|k: int| 0 <= k < i ==> #[trigger] out@[k]@ == JsonV::Str(list@[k]@, None),
        decreases n - i,
    {
        out.push(Json::text(list[i].as_str()));
        i += 1;
    }
    proof {
        crate::json::lemma_items_view(out@, out@.len());
        let a = items_view(out@, out@.len());
        let b = views(list@).map_values(|t: Seq<char>| JsonV::Str(t, None));
        assert(a.len() == b.len());
        assert forall|k: int| 0 <= k < a.len() implies a[k] == b[k] by {
            assert(a[k] == out@[k]@);
            assert(views(list@)[k] == list@[k]@);
        }
        assert(a =~= b);
    }
    out
}

/// The rank of a room in the room list: system rooms first, then the most
/// recently created (`createdAt` texts compared in descending order).
pub open spec fn room_rank(room: JsonV) -> Seq<i128> {
    seq![if get_flag(room, "isSystem"@) == Some(true) { 0i128 } else { 1i128 }]
        + text_desc_rank(match get_text(room, "createdAt"@) {
            Some(t) => t,
            None => Seq::empty(),
        })
}

/// The rooms in list order: system rooms first, then the newest; rooms of
/// equal rank keep their order.
pub open spec fn arranged_rooms(rooms: Seq<JsonV>) -> Seq<JsonV> {
    items_of(rank_sorted(rooms.map_values(|x: JsonV| (room_rank(x), x)), rooms.len()))
}

/// Orders the rooms read from the rooms folder.
pub fn arrange_rooms(rooms: Vec<Json>) -> (r: Vec<Json>)
    ensures
        crate::tasks::json_views(r@) == arranged_rooms(crate::tasks::json_views(rooms@)),
{
    let ghost pv = crate::tasks::json_views(rooms@);
    let n0 = rooms.len();
    let ghost n = n0 as nat;
    let mut rest = rooms;
    let mut ranked: Vec<(Vec<i128>, Json)> = Vec::new();
    let mut k: usize = 0;
    while rest.len() > 0
        invariant
            k + rest@.len() == n,
            n <= usize::MAX,
            pv.len() == n,
            crate::tasks::json_views(rest@) == pv.subrange(k as int, n as int),
            map_items(ranked_view(ranked@), |j: Json| j@)
                == pv.subrange(0, k as int).map_values(|x: JsonV| (room_rank(x), x)),
        decreases rest.len(),
    {
        let ghost old_rest = rest@;
        let room = rest.remove(0);
        assert(crate::tasks::json_views(old_rest)[0] == pv[k as int]);
        assert(crate::tasks::json_views(rest@) =~= crate::tasks::json_views(old_rest).subrange(1, old_rest.len() as int));
        assert(crate::tasks::json_views(rest@) =~= pv.subrange(k + 1, n as int));
        let system = match room.get_bool("isSystem") {
            Some(b) => b,
            None => false,
        };
        let mut key: Vec<i128> = Vec::new();
        key.push(if system { 0 } else { 1 });
        let tail = match room.get_str("createdAt") {
            Some(t) => text_desc_rank_exec(t.as_str()),
            None => text_desc_rank_exec(""),
        };
        proof { reveal_strlit(""); }
        let mut j: usize = 0;
        let ghost head = key@;
        while j < tail.len()
            invariant
                j <= tail@.len(),
                key@ == head + tail@.subrange(0, j as int),
            decreases tail.len() - j,
        {
            key.push(tail[j]);
            assert(tail@.subrange(0, j + 1) =~= tail@.subrange(0, j as int).push(tail@[j as int]));
            j += 1;
        }
        assert(tail@.subrange(0, tail@.len() as int) =~= tail@);
        assert(key@ =~= room_rank(room@));
        let ghost before = map_items(ranked_view(ranked@), |j: Json| j@);
        let ghost rw = room@;
        ranked.push((key, room));
        assert(map_items(ranked_view(ranked@), |j: Json| j@) =~= before.push((room_rank(rw), rw)));
        assert(pv.subrange(0, k + 1) =~= pv.subrange(0, k as int).push(rw));
        k += 1;
    }
    assert(pv.subrange(0, n as int) =~= pv);
    let ghost rk = ranked_view(ranked@);
    let m = ranked.len();
    let sorted = sort_by_rank(ranked);
    proof {
        lemma_rank_sorted_map(rk, m as nat, |j: Json| j@);
        crate::order::lemma_rank_sorted_len(rk, m as nat);
    }
    let out = take_items(sorted, m);
    proof {
        let sv = ranked_view(sorted@);
        assert(crate::tasks::json_views(items_of(sv)) =~= items_of(map_items(sv, |j: Json| j@)));
        assert(crate::tasks::json_views(out@) =~= first_n(crate::tasks::json_views(items_of(sv)), m as int));
    }
    out
}

/// A room as it is stored.
pub fn normalize_room(raw: &Json, fallback_id: &str) -> (r: Json)
    ensures
        r@ == normalized_room(raw@, fallback_id@),
{
    let id = match raw.get_str("id") {
        Some(s) => clone_string(s),
        None => owned(fallback_id),
    };
    let name = match raw.get_str("name") {
        Some(s) => trim_or_default(s.as_str(), "未命名群聊"),
        None => owned("未命名群聊"),
    };
    let advisors: Json = match raw.get("advisorIds") {
        Some(Json::Array(items)) => {
            proof { lemma_array_view(*items); }
            let list = nonempty_texts_exec(items);
            let vals = text_values(list);
            Json::Array(vals)
        },
        Some(other) => {
            assert(!(other@ is Array));
            empty_array()
        },
        None => empty_array(),
    };
    assert(advisors@ == JsonV::Array(room_advisors_of(raw@)));
    let messages = match raw.get("messages") {
        Some(m) => {
            if m.as_array().is_some() {
                copy_json(m)
            } else {
                empty_array()
            }
        },
        None => empty_array(),
    };
    assert(messages@ == room_messages_of(raw@));
    let created = match raw.get_str("createdAt") {
        Some(s) => clone_string(s),
        None => String::new(),
    };
    let is_system = match raw.get_bool("isSystem") {
        Some(b) => b,
        None => false,
    };
    let mut e: Vec<(String, Json)> = Vec::new();
    e.push((owned("id"), Json::from_string(id)));
    e.push((owned("name"), Json::from_string(name)));
    e.push((owned("advisorIds"), advisors));
    e.push((owned("messages"), messages));
    e.push((owned("createdAt"), Json::from_string(created)));
    e.push((owned("isSystem"), Json::Bool(is_system)));
    proof {
        lemma_entries_view(e@, e@.len());
        assert(entries_of(e) =~= room_base(raw@, fallback_id@));
    }
    match raw.get_str("systemType") {
        Some(st) => {
            set_entry_exec(&mut e, "systemType", Json::text(st.as_str()));
        },
        None => {},
    }
    object_of(e)
}

/// Whether a character may appear in a room id: ASCII letters and digits,
/// `_` and `-`.
pub open spec fn room_id_char(c: char) -> bool {
    is_ascii_alnum(c) || c == '_' || c == '-'
}

/// Whether a room id is safe as a file name: non-empty, no separators or
/// `..`, and only room id characters.
pub open spec fn safe_room_id(id: Seq<char>) -> bool {
    id.len() > 0 && !has_char(id, '/') && !has_char(id, '\\') && !contains_seq(id, ".."@)
        && forall|i: int| 0 <= i < id.len() ==> room_id_char(#[trigger] id[i])
}

/// Whether a character may appear in a room id.
pub fn is_safe_room_id_char(c: char) -> (r: bool)
    ensures
        r == room_id_char(c),
{
    char_is_ascii_alnum(c) || c == '_' || c == '-'
}

/// The file name of a room, `<id>.json`, or the refusal of an unsafe id.
pub fn room_file_name(room_id: &str) -> (r: Result<String, String>)
    ensures
        safe_room_id(room_id@) ==> r is Ok && r->Ok_0@ == room_id@ + ".json"@,
        !safe_room_id(room_id@) ==> r is Err && r->Err_0@ == "非法 roomId: "@ + room_id@,
{
    let v = chars_of(room_id);
    let mut all_safe = true;
    let mut i: usize = 0;
    while i < v.len()
        invariant
            i <= v@.len(),
            all_safe == forall|k: int| 0 <= k < i ==> room_id_char(#[trigger] v@[k]),
        decreases v.len() - i,
    {
        if !is_safe_room_id_char(v[i]) {
            all_safe = false;
        }
        i += 1;
    }
    if v.len() == 0 || vec_has_char(&v, '/') || vec_has_char(&v, '\\') || contains_str(&v, "..") || !all_safe {
        let mut m = chars_of("非法 roomId: ");
        append_str(&mut m, room_id);
        return Err(string_from_chars(&m));
    }
    let mut name = chars_of(room_id);
    append_str(&mut name, ".json");
    Ok(string_from_chars(&name))
}

/// The active space of the settings: `active_space_id` when it is a
/// non-empty string, `default` otherwise.
pub open spec fn active_space_of(settings: JsonV) -> Seq<char> {
    match get_text(settings, "active_space_id"@) {
        Some(s) => if s.len() > 0 { s } else { "default"@ },
        None => "default"@,
    }
}

/// The active space of the settings.
pub fn active_space_id(settings: &Json) -> (r: String)
    ensures
        r@ == active_space_of(settings@),
{
    match settings.get_str("active_space_id") {
        Some(s) => if chars_of(s.as_str()).len() > 0 { clone_string(s) } else { owned("default") },
        None => owned("default"),
    }
}

// ---------------------------------------------------------------------------
// Assistant daemon and WeChat official account placeholders
// ---------------------------------------------------------------------------

/// The assistant daemon's default port.
pub const DEFAULT_DAEMON_PORT: i64 = 31937;

/// A room with a request's edits: its `name` (trimmed, the untitled name
/// when blank) and its `advisorIds` list when the request has them; then
/// normalized.
pub open spec fn edited_room(room: JsonV, p: JsonV, room_id: Seq<char>) -> JsonV {
    let r1 = match room {
        JsonV::Object(e) => {
            let e1 = match get_text(p, "name"@) {
                Some(n) => set_entry(e, "name"@, JsonV::Str(trimmed_or(n, untitled_room()), None)),
                None => e,
            };
            let e2 = if jget(p, "advisorIds"@) is Some {
                set_entry(e1, "advisorIds"@, JsonV::Array(string_list_of(jget(p, "advisorIds"@))
                    .map_values(|t: Seq<char>| JsonV::Str(t, None))))
            } else {
                e1
            };
            JsonV::Object(e2)
        },
        _ => room,
    };
    normalized_room(r1, room_id)
}

fn strings_json(v: Vec<String>) -> (r: Json)
    ensures
        r@ == JsonV::Array(views(v@).map_values(|t: Seq<char>| JsonV::Str(t, None))),
{
    let mut items: Vec<Json> = Vec::new();
    let mut k: usize = 0;
    while k < v.len()
        invariant
            k <= v@.len(),
            items@.len() == k,
            forall|m: int| 0 <= m < k ==> (#[trigger] items@[m])@ == JsonV::Str(v@[m]@, None),
        decreases v.len() - k,
    {
        items.push(Json::from_string(clone_string(&v[k])));
        k += 1;
    }
    let ghost iv = items@;
    proof { lemma_array_view(items); }
    assert(items_view(iv, iv.len()) =~= views(v@).map_values(|t: Seq<char>| JsonV::Str(t, None)));
    Json::Array(items)
}

/// Applies a room update request to a stored room.
pub fn edit_room(room: Json, payload: &Json, room_id: &str) -> (r: Json)
    ensures
        r@ == edited_room(room@, payload@, room_id@),
{
    let r1 = match room {
        Json::Object(mut e) => {
            proof { crate::json::lemma_object_view(e); }
            match payload.get_str("name") {
                Some(n) => {
                    set_entry_exec(&mut e, "name", Json::from_string(trim_or_default(n.as_str(), "未命名群聊")));
                },
                None => {},
            }
            match payload.get("advisorIds") {
                Some(_) => {
                    set_entry_exec(&mut e, "advisorIds", strings_json(opt_str_array(payload, "advisorIds")));
                },
                None => {},
            }
            object_of(e)
        },
        other => other,
    };
    normalize_room(&r1, room_id)
}

/// A new room made from a create request: the trimmed `name` (the untitled
/// name when blank), the request's advisor ids, no messages, and the time it
/// was created; then normalized.
/// Texts as JSON string values.
pub open spec fn text_values_of(s: Seq<Seq<char>>) -> Seq<JsonV> {
    s.map_values(|t: Seq<char>| JsonV::Str(t, None))
}

pub open spec fn created_room(p: JsonV, room_id: Seq<char>, created_at: Seq<char>) -> JsonV {
    normalized_room(JsonV::Object(seq![
        ("id"@, JsonV::Str(room_id, None)),
        ("name"@, JsonV::Str(trimmed_or(match get_text(p, "name"@) { Some(n) => n, None => Seq::empty() },
            untitled_room()), None)),
        ("advisorIds"@, JsonV::Array(text_values_of(string_list_of(jget(p, "advisorIds"@))))),
        ("messages"@, JsonV::Array(Seq::empty())),
        ("createdAt"@, JsonV::Str(created_at, None)),
    ]), room_id)
}

/// A new room made from a create request.
pub fn new_room_record(payload: &Json, room_id: &str, created_at: String) -> (r: Json)
    ensures
        r@ == created_room(payload@, room_id@, created_at@),
{
    let source: String = match payload.get_str("name") {
        Some(n) => clone_string(n),
        None => String::new(),
    };
    let name = trim_or_default(source.as_str(), "未命名群聊");
    let ghost nv = name@;
    let list = opt_str_array(payload, "advisorIds");
    let ghost lv = views(list@);
    let ids = strings_json(list);
    let ghost iv = ids@;
    assert(iv == JsonV::Array(text_values_of(string_list_of(jget(payload@, "advisorIds"@))))) by {
        assert(lv.map_values(|t: Seq<char>| JsonV::Str(t, None)) =~= text_values_of(string_list_of(jget(payload@, "advisorIds"@))));
    }
    let mut e: Vec<(String, Json)> = Vec::new();
    proof { lemma_entries_view(e@, 0); }
    push_field(&mut e, "id", Json::text(room_id));
    push_field(&mut e, "name", Json::from_string(name));
    push_field(&mut e, "advisorIds", ids);
    push_field(&mut e, "messages", empty_list());
    push_field(&mut e, "createdAt", Json::from_string(created_at));
    proof { reveal_strlit("未命名群聊"); }
    assert(nv == trimmed_or(match get_text(payload@, "name"@) { Some(n) => n, None => Seq::empty() }, untitled_room()));
    assert(entries_of(e) =~= seq![
        ("id"@, JsonV::Str(room_id@, None)),
        ("name"@, JsonV::Str(nv, None)),
        ("advisorIds"@, iv),
        ("messages"@, JsonV::Array(Seq::empty())),
        ("createdAt"@, JsonV::Str(created_at@, None)),
    ]);
    let ghost ev = entries_of(e);
    let raw = object_of(e);
    let ghost want = seq![
        ("id"@, JsonV::Str(room_id@, None)),
        ("name"@, JsonV::Str(trimmed_or(match get_text(payload@, "name"@) { Some(n) => n, None => Seq::empty() },
            untitled_room()), None)),
        ("advisorIds"@, JsonV::Array(text_values_of(string_list_of(jget(payload@, "advisorIds"@))))),
        ("messages"@, JsonV::Array(Seq::<JsonV>::empty())),
        ("createdAt"@, JsonV::Str(created_at@, None)),
    ];
    assert(ev =~= want);
    assert(raw@ == JsonV::Object(seq![
        ("id"@, JsonV::Str(room_id@, None)),
        ("name"@, JsonV::Str(trimmed_or(match get_text(payload@, "name"@) { Some(n) => n, None => Seq::empty() },
            untitled_room()), None)),
        ("advisorIds"@, JsonV::Array(text_values_of(string_list_of(jget(payload@, "advisorIds"@))))),
        ("messages"@, JsonV::Array(Seq::empty())),
        ("createdAt"@, JsonV::Str(created_at@, None)),
    ]));
    normalize_room(&raw, room_id)
}

/// A stored room with its messages cleared.
pub open spec fn cleared_room(room: JsonV, room_id: Seq<char>) -> JsonV {
    normalized_room(match room {
        JsonV::Object(e) => JsonV::Object(set_entry(e, "messages"@, JsonV::Array(Seq::empty()))),
        _ => room,
    }, room_id)
}

/// Clears a stored room's messages.
pub fn clear_room(room: Json, room_id: &str) -> (r: Json)
    ensures
        r@ == cleared_room(room@, room_id@),
{
    let r1 = match room {
        Json::Object(mut e) => {
            proof { crate::json::lemma_object_view(e); }
            set_entry_exec(&mut e, "messages", empty_list());
            object_of(e)
        },
        other => other,
    };
    normalize_room(&r1, room_id)
}

/// A user's message to a room: the request's `clientMessageId` when it is
/// not blank, else the fresh id; the text; and the time it was sent.
pub open spec fn user_message(p: JsonV, message: Seq<char>, fresh_id: Seq<char>, timestamp: Seq<char>) -> Seq<(Seq<char>, JsonV)> {
    let id = match get_text(p, "clientMessageId"@) {
        Some(t) => if trim(t).len() > 0 { t } else { fresh_id },
        None => fresh_id,
    };
    seq![
        ("id"@, JsonV::Str(id, None)),
        ("role"@, JsonV::Str("user"@, None)),
        ("content"@, JsonV::Str(message, None)),
        ("timestamp"@, JsonV::Str(timestamp, None)),
    ]
}

/// A user's message to a room.
pub fn user_message_record(payload: &Json, message: &str, fresh_id: String, timestamp: String) -> (r: Json)
    ensures
        r@ == JsonV::Object(user_message(payload@, message@, fresh_id@, timestamp@)),
{
    let id: String = match payload.get_str("clientMessageId") {
        Some(t) => if crate::text::trim_chars(&chars_of(t.as_str())).len() > 0 { clone_string(t) } else { fresh_id },
        None => fresh_id,
    };
    let mut e: Vec<(String, Json)> = Vec::new();
    proof { lemma_entries_view(e@, 0); }
    push_field(&mut e, "id", Json::from_string(id));
    push_field(&mut e, "role", Json::text("user"));
    push_field(&mut e, "content", Json::text(message));
    push_field(&mut e, "timestamp", Json::from_string(timestamp));
    assert(entries_of(e) =~= user_message(payload@, message@, fresh_id@, timestamp@));
    object_of(e)
}

/// A stored room with a message added to its messages (when it has a
/// messages array), then normalized.
pub open spec fn room_with_message(room: JsonV, msg: JsonV, room_id: Seq<char>) -> JsonV {
    normalized_room(match room {
        JsonV::Object(e) => match get_entry(e, "messages"@) {
            Some(JsonV::Array(m)) => JsonV::Object(set_entry(e, "messages"@, JsonV::Array(m.push(msg)))),
            _ => room,
        },
        _ => room,
    }, room_id)
}

/// Adds a message to a stored room.
pub fn append_room_message(room: Json, msg: Json, room_id: &str) -> (r: Json)
    ensures
        r@ == room_with_message(room@, msg@, room_id@),
{
    let ghost mv = msg@;
    let r1 = match room {
        Json::Object(mut e) => {
            proof { crate::json::lemma_object_view(e); }
            let ghost ev = entries_of(e);
            let existing: Option<Vec<Json>> = match crate::json::entries_get(&e, "messages") {
                Some(m) => match copy_json(m) {
                    Json::Array(v) => Some(v),
                    _ => None,
                },
                None => None,
            };
            match existing {
                Some(mut v) => {
                    proof { lemma_array_view(v); }
                    let ghost before = items_view(v@, v@.len());
                    v.push(msg);
                    proof { lemma_array_view(v); }
                    assert(items_view(v@, v@.len()) =~= before.push(mv));
                    set_entry_exec(&mut e, "messages", Json::Array(v));
                    object_of(e)
                },
                None => object_of(e),
            }
        },
        other => other,
    };
    normalize_room(&r1, room_id)
}

/// The id of the six thinking hats room.
pub open spec fn six_hats_id() -> Seq<char> {
    "system_six_thinking_hats"@
}

/// Whether the stored system-room state disables the six thinking hats room.
pub open spec fn six_hats_disabled(state: Option<JsonV>) -> bool {
    match state {
        Some(s) => match jget(s, "disabledRoomIds"@) {
            Some(JsonV::Array(ids)) => exists|i: int| 0 <= i < ids.len() && #[trigger] as_text(ids[i]) == Some(six_hats_id()),
            _ => false,
        },
        None => false,
    }
}

/// Whether the stored system-room state disables the six thinking hats room.
pub fn is_six_hats_disabled(state: Option<&Json>) -> (r: bool)
    ensures
        r == six_hats_disabled(match state { Some(s) => Some(s@), None => None }),
{
    proof { reveal_strlit("system_six_thinking_hats"); }
    let ids = match state {
        Some(s) => match s.get("disabledRoomIds") {
            Some(Json::Array(ids)) => ids,
            _ => { return false; },
        },
        None => { return false; },
    };
    proof { lemma_array_view(*ids); }
    let ghost iv = items_view(ids@, ids@.len());
    let ghost sv = state.unwrap()@;
    assert(jget(sv, "disabledRoomIds"@) == Some(JsonV::Array(iv)));
    let mut i: usize = 0;
    while i < ids.len()
        invariant
            state matches Some(s) && s@ == sv,
            jget(sv, "disabledRoomIds"@) == Some(JsonV::Array(iv)),
            iv == items_view(ids@, ids@.len()),
            i <= ids@.len(),
            iv.len() == ids@.len(),
            forall|k: int| 0 <= k < ids@.len() ==> #[trigger] iv[k] == ids@[k]@,
            forall|k: int| 0 <= k < i ==> as_text(#[trigger] iv[k]) != Some(six_hats_id()),
        decreases ids.len() - i,
    {
        assert(iv[i as int] == ids@[i as int]@);
        match ids[i].as_str() {
            Some(t) => if crate::text::str_eq(t.as_str(), "system_six_thinking_hats") {
                assert(as_text(iv[i as int]) == Some(six_hats_id()));
                return true;
            },
            None => {},
        }
        i += 1;
    }
    false
}

/// The six thinking hats room, created at `created_at`: its six advisors,
/// no messages, marked as a system room.
pub open spec fn six_hats_room(created_at: Seq<char>) -> JsonV {
    normalized_room(JsonV::Object(seq![
        ("id"@, JsonV::Str(six_hats_id(), None)),
        ("name"@, JsonV::Str("六顶思考帽"@, None)),
        ("advisorIds"@, JsonV::Array(seq![
            JsonV::Str("hat_white"@, None),
            JsonV::Str("hat_red"@, None),
            JsonV::Str("hat_black"@, None),
            JsonV::Str("hat_yellow"@, None),
            JsonV::Str("hat_green"@, None),
            JsonV::Str("hat_blue"@, None),
        ])),
        ("messages"@, JsonV::Array(Seq::empty())),
        ("createdAt"@, JsonV::Str(created_at, None)),
        ("isSystem"@, JsonV::Bool(true)),
        ("systemType"@, JsonV::Str("six_thinking_hats"@, None)),
    ]), six_hats_id())
}

/// The six thinking hats room, created at `created_at`.
pub fn six_hats_room_record(created_at: String) -> (r: Json)
    ensures
        r@ == six_hats_room(created_at@),
{
    let mut ids: Vec<Json> = Vec::new();
    ids.push(Json::text("hat_white"));
    ids.push(Json::text("hat_red"));
    ids.push(Json::text("hat_black"));
    ids.push(Json::text("hat_yellow"));
    ids.push(Json::text("hat_green"));
    ids.push(Json::text("hat_blue"));
    let ghost idv = ids@;
    proof { lemma_array_view(ids); }
    let advisors = Json::Array(ids);
    assert(advisors@ == JsonV::Array(seq![
        JsonV::Str("hat_white"@, None),
        JsonV::Str("hat_red"@, None),
        JsonV::Str("hat_black"@, None),
        JsonV::Str("hat_yellow"@, None),
        JsonV::Str("hat_green"@, None),
        JsonV::Str("hat_blue"@, None),
    ])) by {
        assert(items_view(idv, idv.len()) =~= seq![
            JsonV::Str("hat_white"@, None),
            JsonV::Str("hat_red"@, None),
            JsonV::Str("hat_black"@, None),
            JsonV::Str("hat_yellow"@, None),
            JsonV::Str("hat_green"@, None),
            JsonV::Str("hat_blue"@, None),
        ]);
    }
    let mut e: Vec<(String, Json)> = Vec::new();
    proof { lemma_entries_view(e@, 0); }
    push_field(&mut e, "id", Json::text("system_six_thinking_hats"));
    push_field(&mut e, "name", Json::text("六顶思考帽"));
    push_field(&mut e, "advisorIds", advisors);
    push_field(&mut e, "messages", empty_list());
    push_field(&mut e, "createdAt", Json::from_string(created_at));
    push_field(&mut e, "isSystem", Json::Bool(true));
    push_field(&mut e, "systemType", Json::text("six_thinking_hats"));
    assert(entries_of(e) =~= seq![
        ("id"@, JsonV::Str(six_hats_id(), None)),
        ("name"@, JsonV::Str("六顶思考帽"@, None)),
        ("advisorIds"@, JsonV::Array(seq![
            JsonV::Str("hat_white"@, None),
            JsonV::Str("hat_red"@, None),
            JsonV::Str("hat_black"@, None),
            JsonV::Str("hat_yellow"@, None),
            JsonV::Str("hat_green"@, None),
            JsonV::Str("hat_blue"@, None),
        ])),
        ("messages"@, JsonV::Array(Seq::empty())),
        ("createdAt"@, JsonV::Str(created_at@, None)),
        ("isSystem"@, JsonV::Bool(true)),
        ("systemType"@, JsonV::Str("six_thinking_hats"@, None)),
    ]);
    let raw = object_of(e);
    normalize_room(&raw, "system_six_thinking_hats")
}

/// The disabled system rooms after the six thinking hats room is deleted:
/// the stored list (when it is a list) with the room's id added unless it is
/// there.
pub open spec fn disabled_with_six_hats(state: Option<JsonV>) -> Seq<(Seq<char>, JsonV)> {
    let ids: Seq<JsonV> = match state {
        Some(s) => match jget(s, "disabledRoomIds"@) {
            Some(JsonV::Array(a)) => a,
            _ => Seq::empty(),
        },
        None => Seq::empty(),
    };
    seq![("disabledRoomIds"@, JsonV::Array(
        if six_hats_disabled(state) { ids } else { ids.push(JsonV::Str(six_hats_id(), None)) }
    ))]
}

/// The system room state that disables the six thinking hats room.
pub fn disable_six_hats(state: Option<&Json>) -> (r: Json)
    ensures
        r@ == JsonV::Object(disabled_with_six_hats(match state { Some(s) => Some(s@), None => None })),
{
    let already = is_six_hats_disabled(state);
    let mut ids: Vec<Json> = match state {
        Some(s) => match s.get("disabledRoomIds") {
            Some(a) => match copy_json(a) {
                Json::Array(v) => v,
                _ => Vec::new(),
            },
            None => Vec::new(),
        },
        None => Vec::new(),
    };
    proof { lemma_array_view(ids); }
    let ghost before = items_view(ids@, ids@.len());
    if !already {
        ids.push(Json::text("system_six_thinking_hats"));
        proof { lemma_array_view(ids); }
        assert(items_view(ids@, ids@.len()) =~= before.push(JsonV::Str(six_hats_id(), None)));
    }
    let mut e: Vec<(String, Json)> = Vec::new();
    proof { lemma_entries_view(e@, 0); }
    push_field(&mut e, "disabledRoomIds", Json::Array(ids));
    assert(entries_of(e) =~= disabled_with_six_hats(match state { Some(s) => Some(s@), None => None }));
    object_of(e)
}

/// The generator state after `s` (a 64-bit linear congruential step).
#[verifier::opaque]
pub open spec fn lcg_next(s: u64) -> u64 {
    vstd::wrapping::u64_specs::wrapping_add(vstd::wrapping::u64_specs::wrapping_mul(s, 6364136223846793005), 1442695040888963407)
}

/// The list after the Fisher-Yates swaps at positions `i` down to 1, the
/// generator starting in state `st`: each step moves the generator on and
/// swaps position `i` with position `(state >> 33) % (i + 1)`.
pub open spec fn shuffle_from(s: Seq<Json>, st: u64, i: int) -> Seq<Json>
    decreases i,
{
    if i < 1 || i >= s.len() {
        s
    } else {
        let st2 = lcg_next(st);
        let j = ((st2 >> 33u64) as nat % ((i + 1) as nat)) as int;
        shuffle_from(s.update(i, s[j]).update(j, s[i]), st2, i - 1)
    }
}

/// A list shuffled from a seed.
pub open spec fn shuffled(s: Seq<Json>, seed: u64) -> Seq<Json> {
    if s.len() < 2 { s } else { shuffle_from(s, seed, s.len() - 1) }
}

fn swap_items(v: &mut Vec<Json>, i: usize, j: usize)
    requires
        i < old(v)@.len(),
        j < old(v)@.len(),
    ensures
        final(v)@ == old(v)@.update(i as int, old(v)@[j as int]).update(j as int, old(v)@[i as int]),
{
    let ghost old_v = v@;
    if i != j {
        let mut tmp = Json::Null;
        v.set_and_swap(i, &mut tmp);
        v.set_and_swap(j, &mut tmp);
        v.set_and_swap(i, &mut tmp);
        assert(v@ =~= old_v.update(i as int, old_v[j as int]).update(j as int, old_v[i as int]));
    } else {
        assert(old_v.update(i as int, old_v[j as int]).update(j as int, old_v[i as int]) =~= old_v);
    }
}

fn lcg_step(s: u64) -> (r: u64)
    ensures
        r == lcg_next(s),
{
    proof { reveal(lcg_next); }
    s.wrapping_mul(6364136223846793005).wrapping_add(1442695040888963407)
}

fn pick_index(st: u64, i: usize) -> (j: usize)
    requires
        i < usize::MAX,
    ensures
        j as int == ((st >> 33u64) as nat % ((i + 1) as nat)) as int,
        j <= i,
{
    let hi: u64 = st >> 33u64;
    assert(hi < 0x8000_0000) by (bit_vector)
        requires hi == st >> 33u64;
    (hi as usize) % (i + 1)
}

/// Shuffles a list with the generator started from `seed`.
pub fn shuffle_rows(v: Vec<Json>, seed: u64) -> (r: Vec<Json>)
    ensures
        r@ == shuffled(v@, seed),
{
    let mut v = v;
    if v.len() < 2 {
        return v;
    }
    let ghost orig = v@;
    let n = v.len();
    let mut state: u64 = seed;
    let mut i: usize = n - 1;
    while i > 0
        invariant
            1 <= v@.len(),
            v@.len() == n,
            i < n,
            shuffle_from(v@, state, i as int) == shuffled(orig, seed),
        decreases i,
    {
        state = lcg_step(state);
        let j = pick_index(state, i);
        swap_items(&mut v, i, j);
        i -= 1;
    }
    v
}

proof fn lemma_swap_keeps_items(s: Seq<Json>, i: int, j: int)
    requires
        0 <= i < s.len(),
        0 <= j < s.len(),
    ensures
        s.update(i, s[j]).update(j, s[i]).to_multiset() =~= s.to_multiset(),
{
    broadcast use vstd::multiset::group_multiset_axioms;
    let t = s.update(i, s[j]);
    vstd::seq_lib::to_multiset_update(s, i, s[j]);
    vstd::seq_lib::to_multiset_update(t, j, s[i]);
    vstd::seq_lib::to_multiset_contains(s, s[i]);
    assert(t[j] == s[j]);
}

proof fn lemma_shuffle_from_keeps_items(s: Seq<Json>, st: u64, i: int)
    ensures
        shuffle_from(s, st, i).to_multiset() =~= s.to_multiset(),
    decreases i,
{
    if i >= 1 && i < s.len() {
        let st2 = lcg_next(st);
        let j = ((st2 >> 33u64) as nat % ((i + 1) as nat)) as int;
        lemma_swap_keeps_items(s, i, j);
        lemma_shuffle_from_keeps_items(s.update(i, s[j]).update(j, s[i]), st2, i - 1);
    }
}

/// Shuffling only reorders a list: each row stays in it, as often as it was
/// there, whatever the seed.
pub proof fn lemma_shuffle_permutation(s: Seq<Json>, seed: u64)
    ensures
        shuffled(s, seed).to_multiset() == s.to_multiset(),
        shuffled(s, seed).len() == s.len(),
{
    if s.len() >= 2 {
        lemma_shuffle_from_keeps_items(s, seed, s.len() - 1);
        lemma_shuffle_from_len(s, seed, s.len() - 1);
    }
}

proof fn lemma_shuffle_from_len(s: Seq<Json>, st: u64, i: int)
    ensures
        shuffle_from(s, st, i).len() == s.len(),
    decreases i,
{
    if i >= 1 && i < s.len() {
        let st2 = lcg_next(st);
        let j = ((st2 >> 33u64) as nat % ((i + 1) as nat)) as int;
        lemma_shuffle_from_len(s.update(i, s[j]).update(j, s[i]), st2, i - 1);
    }
}

/// Up to three remembered wanders, picked at random (by `seed`) and decoded.
pub open spec fn picked_wanders(rows: Seq<Json>, seed: u64) -> Seq<JsonV> {
    let sh = shuffled(rows, seed);
    let n = if sh.len() < 3 { sh.len() } else { 3 };
    Seq::new(n as nat, |i: int| decorated_row(sh[i]@))
}

/// Picks up to three remembered wanders at random and decodes them.
pub fn pick_wanders(rows: Vec<Json>, seed: u64) -> (r: Vec<Json>)
    ensures
        crate::tasks::json_views(r@) == picked_wanders(rows@, seed),
{
    let sh = shuffle_rows(rows, seed);
    let ghost shv = sh@;
    let n: usize = if sh.len() < 3 { sh.len() } else { 3 };
    let mut rest = sh;
    let mut out: Vec<Json> = Vec::new();
    let mut k: usize = 0;
    while k < n
        invariant
            k <= n,
            n <= shv.len(),
            rest@ == shv.subrange(k as int, shv.len() as int),
            out@.len() == k,
            forall|m: int| 0 <= m < k ==> (#[trigger] out@[m])@ == decorated_row(shv[m]@),
        decreases n - k,
    {
        let row = rest.remove(0);
        assert(rest@ =~= shv.subrange(k + 1, shv.len() as int));
        out.push(decorate_wander_row(row));
        k += 1;
    }
    assert(crate::tasks::json_views(out@) =~= Seq::new(n as nat, |i: int| decorated_row(shv[i]@)));
    out
}

fn push_field(e: &mut Vec<(String, Json)>, k: &str, v: Json)
    ensures
        entries_of(*final(e)) == entries_of(*old(e)).push((k@, v@)),
{
    let ghost vv = v@;
    proof { lemma_entries_view(e@, e@.len()); }
    e.push((owned(k), v));
    proof { lemma_entries_view(e@, e@.len()); }
    assert(entries_of(*e) =~= entries_of(*old(e)).push((k@, vv)));
}

fn empty_text() -> (r: Json)
    ensures
        r@ == JsonV::Str(Seq::empty(), None),
{
    Json::from_string(String::new())
}

fn empty_list() -> (r: Json)
    ensures
        r@ == JsonV::Array(Seq::empty()),
{
    let v: Vec<Json> = Vec::new();
    proof { lemma_array_view(v); }
    assert(items_view(v@, 0) =~= Seq::<JsonV>::empty());
    Json::Array(v)
}

/// The Feishu bridge as the daemon status reports it: off.
pub open spec fn feishu_status_entries() -> Seq<(Seq<char>, JsonV)> {
    seq![
        ("enabled"@, JsonV::Bool(false)),
        ("receiveMode"@, JsonV::Str("webhook"@, None)),
        ("endpointPath"@, JsonV::Str("/feishu"@, None)),
        ("webhookUrl"@, JsonV::Str(Seq::empty(), None)),
        ("websocketRunning"@, JsonV::Bool(false)),
    ]
}

/// The relay bridge as the daemon status reports it: off.
pub open spec fn relay_status_entries() -> Seq<(Seq<char>, JsonV)> {
    seq![
        ("enabled"@, JsonV::Bool(false)),
        ("endpointPath"@, JsonV::Str("/relay"@, None)),
        ("webhookUrl"@, JsonV::Str(Seq::empty(), None)),
    ]
}

/// The Weixin bridge as the daemon status reports it: off, not connected.
pub open spec fn weixin_status_entries() -> Seq<(Seq<char>, JsonV)> {
    seq![
        ("enabled"@, JsonV::Bool(false)),
        ("endpointPath"@, JsonV::Str("/weixin"@, None)),
        ("webhookUrl"@, JsonV::Str(Seq::empty(), None)),
        ("sidecarRunning"@, JsonV::Bool(false)),
        ("connected"@, JsonV::Bool(false)),
        ("stateDir"@, JsonV::Str(Seq::empty(), None)),
        ("availableAccountIds"@, JsonV::Array(Seq::empty())),
    ]
}

/// The Feishu bridge status.
pub fn default_feishu_status() -> (r: Json)
    ensures
        r@ == JsonV::Object(feishu_status_entries()),
{
    let mut e: Vec<(String, Json)> = Vec::new();
    proof { lemma_entries_view(e@, 0); }
    push_field(&mut e, "enabled", Json::Bool(false));
    push_field(&mut e, "receiveMode", Json::text("webhook"));
    push_field(&mut e, "endpointPath", Json::text("/feishu"));
    push_field(&mut e, "webhookUrl", empty_text());
    push_field(&mut e, "websocketRunning", Json::Bool(false));
    assert(entries_of(e) =~= feishu_status_entries());
    object_of(e)
}

/// The relay bridge status.
pub fn default_relay_status() -> (r: Json)
    ensures
        r@ == JsonV::Object(relay_status_entries()),
{
    let mut e: Vec<(String, Json)> = Vec::new();
    proof { lemma_entries_view(e@, 0); }
    push_field(&mut e, "enabled", Json::Bool(false));
    push_field(&mut e, "endpointPath", Json::text("/relay"));
    push_field(&mut e, "webhookUrl", empty_text());
    assert(entries_of(e) =~= relay_status_entries());
    object_of(e)
}

/// The Weixin bridge status.
pub fn default_weixin_status() -> (r: Json)
    ensures
        r@ == JsonV::Object(weixin_status_entries()),
{
    let mut e: Vec<(String, Json)> = Vec::new();
    proof { lemma_entries_view(e@, 0); }
    push_field(&mut e, "enabled", Json::Bool(false));
    push_field(&mut e, "endpointPath", Json::text("/weixin"));
    push_field(&mut e, "webhookUrl", empty_text());
    push_field(&mut e, "sidecarRunning", Json::Bool(false));
    push_field(&mut e, "connected", Json::Bool(false));
    push_field(&mut e, "stateDir", empty_text());
    push_field(&mut e, "availableAccountIds", empty_list());
    assert(entries_of(e) =~= weixin_status_entries());
    object_of(e)
}

/// The assistant daemon's status while it is not running: not listening, no
/// tasks, every bridge off.
pub open spec fn daemon_status_entries() -> Seq<(Seq<char>, JsonV)> {
    seq![
        ("enabled"@, JsonV::Bool(false)),
        ("autoStart"@, JsonV::Bool(true)),
        ("keepAliveWhenNoWindow"@, JsonV::Bool(true)),
        ("host"@, JsonV::Str("127.0.0.1"@, None)),
        ("port"@, JsonV::Int(DEFAULT_DAEMON_PORT)),
        ("listening"@, JsonV::Bool(false)),
        ("lockState"@, JsonV::Str("passive"@, None)),
        ("blockedBy"@, JsonV::Null),
        ("lastError"@, JsonV::Null),
        ("activeTaskCount"@, JsonV::Int(0)),
        ("queuedPeerCount"@, JsonV::Int(0)),
        ("inFlightKeys"@, JsonV::Array(Seq::empty())),
        ("feishu"@, JsonV::Object(feishu_status_entries())),
        ("relay"@, JsonV::Object(relay_status_entries())),
        ("weixin"@, JsonV::Object(weixin_status_entries())),
        ("stub"@, JsonV::Bool(true)),
    ]
}

/// The assistant daemon's status.
pub fn assistant_daemon_status() -> (r: Json)
    ensures
        r@ == JsonV::Object(daemon_status_entries()),
{
    let mut e: Vec<(String, Json)> = Vec::new();
    proof { lemma_entries_view(e@, 0); }
    push_field(&mut e, "enabled", Json::Bool(false));
    push_field(&mut e, "autoStart", Json::Bool(true));
    push_field(&mut e, "keepAliveWhenNoWindow", Json::Bool(true));
    push_field(&mut e, "host", Json::text("127.0.0.1"));
    push_field(&mut e, "port", Json::Int(DEFAULT_DAEMON_PORT));
    push_field(&mut e, "listening", Json::Bool(false));
    push_field(&mut e, "lockState", Json::text("passive"));
    push_field(&mut e, "blockedBy", Json::Null);
    push_field(&mut e, "lastError", Json::Null);
    push_field(&mut e, "activeTaskCount", Json::Int(0));
    push_field(&mut e, "queuedPeerCount", Json::Int(0));
    push_field(&mut e, "inFlightKeys", empty_list());
    push_field(&mut e, "feishu", default_feishu_status());
    push_field(&mut e, "relay", default_relay_status());
    push_field(&mut e, "weixin", default_weixin_status());
    push_field(&mut e, "stub", Json::Bool(true));
    assert(entries_of(e) =~= daemon_status_entries());
    object_of(e)
}

/// The port a daemon start request asks for: its `port` when it is from 1 to
/// 65535, the default port otherwise.
pub fn daemon_port(payload: &Json) -> (r: i64)
    ensures
        r == (match get_int(payload@, "port"@) {
            Some(p) => if 1 <= p <= 65535 { p } else { DEFAULT_DAEMON_PORT },
            None => DEFAULT_DAEMON_PORT,
        }),
{
    match payload.get_i64("port") {
        Some(p) => if 1 <= p && p <= 65535 { p } else { DEFAULT_DAEMON_PORT },
        None => DEFAULT_DAEMON_PORT,
    }
}

/// A trimmed text field, empty when absent.
pub open spec fn trimmed_field(p: JsonV, key: Seq<char>) -> Seq<char> {
    match get_text(p, key) {
        Some(s) => trim(s),
        None => Seq::empty(),
    }
}

fn trimmed_field_exec(p: &Json, key: &str) -> (r: String)
    ensures
        r@ == trimmed_field(p@, key@),
{
    match p.get_str(key) {
        Some(s) => trim_str(s.as_str()),
        None => {
            let e = String::new();
            e
        },
    }
}

/// The fields of a WeChat official account binding request: app id, secret
/// and name, trimmed, and whether it becomes active (by default it does);
/// or the refusal when the app id or the secret is missing.
pub fn wechat_binding_fields(payload: &Json) -> (r: Result<(String, String, String, bool), String>)
    ensures
        (trimmed_field(payload@, "appId"@).len() == 0 || trimmed_field(payload@, "secret"@).len() == 0)
            ==> r is Err && r->Err_0@ == "绑定公众号需要填写 AppID 和 Secret。"@,
        !(trimmed_field(payload@, "appId"@).len() == 0 || trimmed_field(payload@, "secret"@).len() == 0)
            ==> r is Ok && r->Ok_0.0@ == trimmed_field(payload@, "appId"@)
                && r->Ok_0.1@ == trimmed_field(payload@, "secret"@)
                && r->Ok_0.2@ == trimmed_field(payload@, "name"@)
                && r->Ok_0.3 == (match get_flag(payload@, "setActive"@) { Some(b) => b, None => true }),
{
    let app_id = trimmed_field_exec(payload, "appId");
    let secret = trimmed_field_exec(payload, "secret");
    if chars_of(app_id.as_str()).len() == 0 || chars_of(secret.as_str()).len() == 0 {
        return Err(owned("绑定公众号需要填写 AppID 和 Secret。"));
    }
    let name = trimmed_field_exec(payload, "name");
    let set_active = match payload.get_bool("setActive") {
        Some(b) => b,
        None => true,
    };
    Ok((app_id, secret, name, set_active))
}

/// The content of a draft request, trimmed, or the refusal when it is empty.
pub fn draft_content(payload: &Json) -> (r: Result<String, String>)
    ensures
        trimmed_field(payload@, "content"@).len() == 0 ==> r is Err && r->Err_0@ == "content is required"@,
        trimmed_field(payload@, "content"@).len() > 0 ==> r is Ok && r->Ok_0@ == trimmed_field(payload@, "content"@),
{
    let content = trimmed_field_exec(payload, "content");
    if chars_of(content.as_str()).len() == 0 {
        return Err(owned("content is required"));
    }
    Ok(content)
}

// ---------------------------------------------------------------------------
// Wander history rows
// ---------------------------------------------------------------------------

/// A stored text field read back as JSON: the document its text parses to,
/// or the text itself.
pub open spec fn decoded_text(s: Seq<char>, doc: Option<Box<JsonV>>) -> JsonV {
    match doc {
        Some(d) => *d,
        None => JsonV::Str(s, None),
    }
}

/// A wander history row as the front end reads it: `items` and `result`
/// decoded from their JSON text, and `createdAt` copied from `created_at`.
pub open spec fn decorated_row(row: JsonV) -> JsonV {
    match row {
        JsonV::Object(e0) => {
            let e1 = match jget(row, "items"@) {
                Some(JsonV::Str(s, doc)) => set_entry(e0, "items"@, decoded_text(s, doc)),
                _ => e0,
            };
            let e2 = match jget(row, "result"@) {
                Some(JsonV::Str(s, doc)) => set_entry(e1, "result"@, decoded_text(s, doc)),
                _ => e1,
            };
            let e3 = match jget(row, "created_at"@) {
                Some(c) => set_entry(e2, "createdAt"@, c),
                None => e2,
            };
            JsonV::Object(e3)
        },
        _ => row,
    }
}

fn decoded_text_exec(s: &String, doc: &Option<Box<Json>>) -> (r: Json)
    ensures
        r@ == decoded_text(s@, match doc { Some(d) => Some(Box::new((**d)@)), None => None }),
{
    match doc {
        Some(d) => copy_json(&**d),
        None => Json::from_string(clone_string(s)),
    }
}

fn decoded_field(row: &Json, key: &str) -> (r: Option<Json>)
    ensures
        match jget(row@, key@) {
            Some(JsonV::Str(s, doc)) => r matches Some(x) && x@ == decoded_text(s, doc),
            _ => r is None,
        },
{
    match row.get(key) {
        Some(Json::Str(s, doc)) => Some(decoded_text_exec(s, doc)),
        _ => None,
    }
}

fn put_opt(e: &mut Vec<(String, Json)>, key: &str, v: Option<Json>)
    ensures
        entries_of(*final(e)) == (match v {
            Some(x) => set_entry(entries_of(*old(e)), key@, x@),
            None => entries_of(*old(e)),
        }),
{
    match v {
        Some(x) => set_entry_exec(e, key, x),
        None => {},
    }
}

/// A wander history row as the front end reads it.
pub fn decorate_wander_row(row: Json) -> (r: Json)
    ensures
        r@ == decorated_row(row@),
{
    let items = decoded_field(&row, "items");
    let result = decoded_field(&row, "result");
    let created = match row.get("created_at") {
        Some(c) => Some(copy_json(c)),
        None => None,
    };
    match row {
        Json::Object(mut e) => {
            proof { crate::json::lemma_object_view(e); }
            put_opt(&mut e, "items", items);
            put_opt(&mut e, "result", result);
            put_opt(&mut e, "createdAt", created);
            object_of(e)
        },
        other => other,
    }
}

} // verus!
