use opencode_gtk::api::{ApiClient, HttpMethod, RequestBody};
use opencode_gtk::input::text_request;

fn client() -> ApiClient {
    ApiClient::new("http://127.0.0.1:4096".to_string())
}

#[test]
fn session_requests() {
    let c = client();
    let r = c.get_sessions();
    assert_eq!((r.method, r.url.as_str(), r.body), (HttpMethod::Get, "http://127.0.0.1:4096/session", RequestBody::Empty));
    let r = c.create_session();
    assert_eq!((r.method, r.url.as_str(), r.body), (HttpMethod::Post, "http://127.0.0.1:4096/session", RequestBody::EmptyObject));
    let r = c.delete_session("s1");
    assert_eq!((r.method, r.url.as_str()), (HttpMethod::Delete, "http://127.0.0.1:4096/session/s1"));
    let r = c.get_messages("s1");
    assert_eq!((r.method, r.url.as_str()), (HttpMethod::Get, "http://127.0.0.1:4096/session/s1/message"));
    let r = c.abort_generation("s1");
    assert_eq!((r.method, r.url.as_str()), (HttpMethod::Post, "http://127.0.0.1:4096/session/s1/abort"));
    let r = c.share_session("s1");
    assert_eq!((r.method, r.url.as_str()), (HttpMethod::Post, "http://127.0.0.1:4096/session/s1/share"));
    let r = c.unshare_session("s1");
    assert_eq!((r.method, r.url.as_str()), (HttpMethod::Delete, "http://127.0.0.1:4096/session/s1/share"));
    let r = c.summarize_session("s1");
    assert_eq!((r.method, r.url.as_str()), (HttpMethod::Post, "http://127.0.0.1:4096/session/s1/summarize"));
}

#[test]
fn rename_and_revert_carry_bodies() {
    let c = client();
    let r = c.rename_session("s1", "New name");
    assert_eq!(r.method, HttpMethod::Patch);
    assert_eq!(r.url, "http://127.0.0.1:4096/session/s1");
    assert_eq!(r.body, RequestBody::Title("New name".to_string()));
    let r = c.revert_message("s1", "m9");
    assert_eq!(r.method, HttpMethod::Post);
    assert_eq!(r.url, "http://127.0.0.1:4096/session/s1/revert");
    assert_eq!(r.body, RequestBody::MessageId("m9".to_string()));
}

#[test]
fn fork_with_and_without_message() {
    let c = client();
    assert_eq!(c.fork_session("s1", None).url, "http://127.0.0.1:4096/session/s1/fork");
    assert_eq!(c.fork_session("s1", Some("m2")).url, "http://127.0.0.1:4096/session/s1/fork?messageID=m2");
    assert_eq!(c.fork_session("s1", Some("m2")).method, HttpMethod::Post);
}

#[test]
fn global_requests() {
    let c = client();
    assert_eq!(c.get_config().url, "http://127.0.0.1:4096/config/providers");
    assert_eq!(c.get_agents().url, "http://127.0.0.1:4096/agent");
    assert_eq!(c.get_event_stream().url, "http://127.0.0.1:4096/event");
    assert_eq!(c.get_event_stream().method, HttpMethod::Get);
}

#[test]
fn send_message_posts_request() {
    let c = client();
    let req = text_request("hello", "acme", "nova", "build");
    let r = c.send_message("s1", req.clone());
    assert_eq!(r.method, HttpMethod::Post);
    assert_eq!(r.url, "http://127.0.0.1:4096/session/s1/message");
    assert_eq!(r.body, RequestBody::Message(req));
}
