use yunying_server::ipc::{
    namespace, route_invoke, route_send, EventEmitter, NoopEmitter, RecordingEmitter, Route,
};
use yunying_server::json::Json;

#[test]
fn namespace_prefix() {
    assert_eq!(namespace("chat:send-message"), "chat");
    assert_eq!(namespace("db:get-settings"), "db");
    assert_eq!(namespace("plain"), "plain");
}

#[test]
fn namespace_of_edge_cases() {
    assert_eq!(namespace(""), "");
    assert_eq!(namespace(":x"), "");
    assert_eq!(namespace("a:b:c"), "a");
}

#[test]
fn recording_emitter_records() {
    let mut e = RecordingEmitter::new();
    e.emit(
        "runtime:event",
        Json::Object(vec![("type".to_string(), Json::Str("done".to_string(), None))]),
    );
    assert_eq!(e.events.len(), 1);
    assert_eq!(e.events[0].0, "runtime:event");
}

#[test]
fn noop_emitter_satisfies_trait() {
    let mut e = NoopEmitter;
    e.emit("knowledge:note-updated", Json::Null);
}

#[test]
fn invoke_routes_by_namespace() {
    assert_eq!(route_invoke("chat:send-message").unwrap(), Route::Core);
    assert_eq!(route_invoke("background-workers:list").unwrap(), Route::Tasks);
    assert_eq!(route_invoke("video-gen:submit").unwrap(), Route::Generation);
    assert_eq!(route_invoke("wechat-official:bind").unwrap(), Route::Social);
    assert_eq!(route_invoke("socialTools:list").unwrap(), Route::Accounts);
    assert_eq!(route_invoke("notifications:show").unwrap(), Route::System);
    assert_eq!(route_invoke("redclaw").unwrap(), Route::RedClaw);
}

#[test]
fn unknown_namespace_errors() {
    let err = route_invoke("nope:thing").unwrap_err();
    assert_eq!(err, "IPC 通道未实现（命名空间 nope）：nope:thing");
}

#[test]
fn send_routes_only_chat_and_goose() {
    assert_eq!(route_send("goose:run").unwrap(), Route::Core);
    assert_eq!(route_send("chat:x").unwrap(), Route::Core);
    let err = route_send("db:get").unwrap_err();
    assert_eq!(err, "IPC send 通道未实现（命名空间 db）：db:get");
}
