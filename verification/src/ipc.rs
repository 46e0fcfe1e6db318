//! IPC channel routing: a channel is `namespace:action`, and its namespace
//! picks the module that serves it. Events go out through an [`EventEmitter`].

use vstd::prelude::*;
use crate::text::{chars_of, string_from_chars, append_str, owned, str_eq, before_first, before_first_chars};
use crate::json::Json;

verus! {

/// The namespace of a channel: what comes before its first `:`, or the whole
/// channel when it has none (`chat:send-message` gives `chat`).
pub open spec fn namespace_of(channel: Seq<char>) -> Seq<char> {
    before_first(channel, ':')
}

/// The namespace of a channel (`str::split(':').next()`).
pub fn namespace(channel: &str) -> (r: String)
    ensures
        r@ == namespace_of(channel@),
{
    let v = chars_of(channel);
    let head = before_first_chars(&v, ':');
    string_from_chars(&head)
}

/// The module that serves a namespace.
#[derive(Clone, Copy, Debug, PartialEq, Eq, Structural)]
pub enum Route {
    /// db, settings, spaces, chat, goose
    Core,
    /// tasks, work, subjects, background tasks and workers
    Tasks,
    /// memory, archives, manuscripts
    Content,
    Knowledge,
    /// generation, image-gen, video-gen, media, cover
    Generation,
    /// sessions, runtime, session-bridge, mcp
    Runtime,
    Advisors,
    RedClaw,
    /// chatrooms, wander, assistant, wechat-official
    Social,
    /// skills, tools, plugin(s), cli-runtime
    Devtools,
    /// embedding, similarity, indexing, youtube, ai
    Data,
    /// auth, redbox-auth, videoEditorV2
    AuthSys,
    BossSync,
    /// social-tools, socialTools
    Accounts,
    /// app, clipboard, file, audio, logs, debug, notifications
    System,
}

/// The module that serves an invoked namespace, if any.
pub open spec fn invoke_route(ns: Seq<char>) -> Option<Route> {
    if ns == "db"@ || ns == "settings"@ || ns == "spaces"@ || ns == "chat"@ || ns == "goose"@ {
        Some(Route::Core)
    } else if ns == "tasks"@ || ns == "work"@ || ns == "subjects"@ || ns == "background-tasks"@
        || ns == "background-workers"@ {
        Some(Route::Tasks)
    } else if ns == "memory"@ || ns == "archives"@ || ns == "manuscripts"@ {
        Some(Route::Content)
    } else if ns == "knowledge"@ {
        Some(Route::Knowledge)
    } else if ns == "generation"@ || ns == "image-gen"@ || ns == "video-gen"@ || ns == "media"@
        || ns == "cover"@ {
        Some(Route::Generation)
    } else if ns == "sessions"@ || ns == "runtime"@ || ns == "session-bridge"@ || ns == "mcp"@ {
        Some(Route::Runtime)
    } else if ns == "advisors"@ {
        Some(Route::Advisors)
    } else if ns == "redclaw"@ {
        Some(Route::RedClaw)
    } else if ns == "chatrooms"@ || ns == "wander"@ || ns == "assistant"@ || ns == "wechat-official"@ {
        Some(Route::Social)
    } else if ns == "skills"@ || ns == "tools"@ || ns == "plugin"@ || ns == "plugins"@
        || ns == "cli-runtime"@ {
        Some(Route::Devtools)
    } else if ns == "embedding"@ || ns == "similarity"@ || ns == "indexing"@ || ns == "youtube"@
        || ns == "ai"@ {
        Some(Route::Data)
    } else if ns == "auth"@ || ns == "redbox-auth"@ || ns == "videoEditorV2"@ {
        Some(Route::AuthSys)
    } else if ns == "boss-sync"@ {
        Some(Route::BossSync)
    } else if ns == "social-tools"@ || ns == "socialTools"@ {
        Some(Route::Accounts)
    } else if ns == "app"@ || ns == "clipboard"@ || ns == "file"@ || ns == "audio"@ || ns == "logs"@
        || ns == "debug"@ || ns == "notifications"@ {
        Some(Route::System)
    } else {
        None
    }
}

fn is_any(ns: &str, a: &str, b: &str, c: &str, d: &str, e: &str) -> (r: bool)
    ensures
        r == (ns@ == a@ || ns@ == b@ || ns@ == c@ || ns@ == d@ || ns@ == e@),
{
    str_eq(ns, a) || str_eq(ns, b) || str_eq(ns, c) || str_eq(ns, d) || str_eq(ns, e)
}

fn route_of_namespace(ns: &str) -> (r: Option<Route>)
    ensures
        r == invoke_route(ns@),
{
    if is_any(ns, "db", "settings", "spaces", "chat", "goose") {
        Some(Route::Core)
    } else if is_any(ns, "tasks", "work", "subjects", "background-tasks", "background-workers") {
        Some(Route::Tasks)
    } else if is_any(ns, "memory", "archives", "manuscripts", "manuscripts", "manuscripts") {
        Some(Route::Content)
    } else if str_eq(ns, "knowledge") {
        Some(Route::Knowledge)
    } else if is_any(ns, "generation", "image-gen", "video-gen", "media", "cover") {
        Some(Route::Generation)
    } else if is_any(ns, "sessions", "runtime", "session-bridge", "mcp", "mcp") {
        Some(Route::Runtime)
    } else if str_eq(ns, "advisors") {
        Some(Route::Advisors)
    } else if str_eq(ns, "redclaw") {
        Some(Route::RedClaw)
    } else if is_any(ns, "chatrooms", "wander", "assistant", "wechat-official", "wechat-official") {
        Some(Route::Social)
    } else if is_any(ns, "skills", "tools", "plugin", "plugins", "cli-runtime") {
        Some(Route::Devtools)
    } else if is_any(ns, "embedding", "similarity", "indexing", "youtube", "ai") {
        Some(Route::Data)
    } else if is_any(ns, "auth", "redbox-auth", "videoEditorV2", "videoEditorV2", "videoEditorV2") {
        Some(Route::AuthSys)
    } else if str_eq(ns, "boss-sync") {
        Some(Route::BossSync)
    } else if is_any(ns, "social-tools", "socialTools", "socialTools", "socialTools", "socialTools") {
        Some(Route::Accounts)
    } else if is_any(ns, "app", "clipboard", "file", "audio", "logs")
        || is_any(ns, "debug", "notifications", "notifications", "notifications", "notifications") {
        Some(Route::System)
    } else {
        None
    }
}

/// The message for a channel whose namespace nothing serves.
pub open spec fn unrouted_message(prefix: Seq<char>, channel: Seq<char>) -> Seq<char> {
    prefix + namespace_of(channel) + "）："@ + channel
}

fn unrouted(prefix: &str, channel: &str, ns: &String) -> (r: String)
    requires
        ns@ == namespace_of(channel@),
    ensures
        r@ == unrouted_message(prefix@, channel@),
{
    let mut m: Vec<char> = chars_of(prefix);
    append_str(&mut m, ns.as_str());
    append_str(&mut m, "）：");
    append_str(&mut m, channel);
    string_from_chars(&m)
}

/// The module that serves an invoked channel, or the error the caller gets
/// when its namespace has none.
pub fn route_invoke(channel: &str) -> (r: Result<Route, String>)
    ensures
        match invoke_route(namespace_of(channel@)) {
            Some(route) => r == Ok::<Route, String>(route),
            None => r is Err && r->Err_0@ == unrouted_message("IPC 通道未实现（命名空间 "@, channel@),
        },
{
    let ns = namespace(channel);
    match route_of_namespace(ns.as_str()) {
        Some(route) => Ok(route),
        None => Err(unrouted("IPC 通道未实现（命名空间 ", channel, &ns)),
    }
}

/// The module that serves a one-way channel: only chat and goose have one.
pub fn route_send(channel: &str) -> (r: Result<Route, String>)
    ensures
        (namespace_of(channel@) == "chat"@ || namespace_of(channel@) == "goose"@)
            ==> r == Ok::<Route, String>(Route::Core),
        !(namespace_of(channel@) == "chat"@ || namespace_of(channel@) == "goose"@)
            ==> r is Err && r->Err_0@ == unrouted_message("IPC send 通道未实现（命名空间 "@, channel@),
{
    let ns = namespace(channel);
    if str_eq(ns.as_str(), "chat") || str_eq(ns.as_str(), "goose") {
        Ok(Route::Core)
    } else {
        Err(unrouted("IPC send 通道未实现（命名空间 ", channel, &ns))
    }
}

// ---------------------------------------------------------------------------
// Events
// ---------------------------------------------------------------------------

/// Where pushed events go (the front end's `listen(channel, cb)`).
pub trait EventEmitter {
    fn emit(&mut self, channel: &str, payload: Json);
}

/// An emitter that drops every event.
pub struct NoopEmitter;

impl EventEmitter for NoopEmitter {
    fn emit(&mut self, channel: &str, payload: Json) {
    }
}

/// An emitter that keeps every event, in order.
pub struct RecordingEmitter {
    pub events: Vec<(String, Json)>,
}

impl RecordingEmitter {
    /// An emitter with no event yet.
    pub fn new() -> (r: RecordingEmitter)
        ensures
            r.events@.len() == 0,
    {
        RecordingEmitter { events: Vec::new() }
    }
}

impl EventEmitter for RecordingEmitter {
    fn emit(&mut self, channel: &str, payload: Json)
        ensures
            final(self).events@.len() == old(self).events@.len() + 1,
            forall|i: int| 0 <= i < old(self).events@.len()
                ==> #[trigger] final(self).events@[i] == old(self).events@[i],
            final(self).events@.last().0@ == channel@,
            final(self).events@.last().1 == payload,
    {
        self.events.push((owned(channel), payload));
    }
}

} // verus!
