use opencode_gtk::input::{
    clear_on_focus, input_height, is_placeholder, key_pressed, pending_user_message, restore_placeholder,
    send_enabled, text_request, Key, KeyResponse, MessageInput, ModelChoice, SendPlan,
};
use opencode_gtk::model::{Agent, Config, Model, Provider};

fn agent(name: &str) -> Agent {
    Agent { name: name.to_string(), description: None, mode: "primary".to_string(), built_in: true }
}

fn model(key: &str, name: &str) -> (String, Model) {
    (key.to_string(), Model { id: format!("{}-id", key), name: name.to_string() })
}

fn config() -> Config {
    Config {
        providers: vec![
            Provider { id: "acme".to_string(), name: "Acme".to_string(), models: vec![model("nova", "Nova"), model("lyra", "Lyra")] },
            Provider { id: "empty".to_string(), name: "Empty".to_string(), models: vec![] },
            Provider { id: "zenith".to_string(), name: "Zenith".to_string(), models: vec![model("orbit", "Orbit")] },
        ],
    }
}

fn choice(p: &str, m: &str, n: &str) -> ModelChoice {
    ModelChoice { provider_id: p.to_string(), model_id: m.to_string(), name: n.to_string() }
}

#[test]
fn models_are_flattened_in_order() {
    let mut input = MessageInput::new();
    input.load_models(&config());
    assert_eq!(
        input.models,
        vec![choice("acme", "nova", "Nova"), choice("acme", "lyra", "Lyra"), choice("zenith", "orbit", "Orbit")]
    );
    assert_eq!(input.selected_model, 0);
}

#[test]
fn choose_model_and_agent_by_name() {
    let mut input = MessageInput::new();
    input.load_models(&config());
    input.load_agents(vec![agent("build"), agent("plan"), agent("plan")]);
    assert_eq!(input.set_model_by_id("orbit"), Some(2));
    assert_eq!(input.selected_model, 2);
    assert_eq!(input.set_model_by_id("nope"), None);
    assert_eq!(input.selected_model, 2);
    assert_eq!(input.set_agent_by_name("plan"), Some(1));
    assert_eq!(input.selected_agent, 1);
    assert_eq!(input.set_agent_by_name("x"), None);
    assert_eq!(input.selected_agent, 1);
    input.select_model(7);
    input.select_agent(0);
    assert_eq!((input.selected_model, input.selected_agent), (7, 0));
}

#[test]
fn plan_send_refusals() {
    let mut input = MessageInput::new();
    assert_eq!(input.plan_send(""), SendPlan::EmptyText);
    assert_eq!(input.plan_send("hi"), SendPlan::NoModel);
    input.load_models(&config());
    assert_eq!(input.plan_send("hi"), SendPlan::NoAgent);
    input.load_agents(vec![agent("build")]);
    input.select_model(3);
    assert_eq!(input.plan_send("hi"), SendPlan::NoModel);
    input.select_model(0);
    input.select_agent(1);
    assert_eq!(input.plan_send("hi"), SendPlan::NoAgent);
}

#[test]
fn plan_send_targets() {
    let mut input = MessageInput::new();
    input.load_models(&config());
    input.load_agents(vec![agent("build"), agent("plan")]);
    input.select_model(1);
    input.select_agent(1);
    assert_eq!(
        input.plan_send("  hi "),
        SendPlan::NewSession {
            text: "  hi ".to_string(),
            provider_id: "acme".to_string(),
            model_id: "lyra".to_string(),
            agent: "plan".to_string()
        }
    );
    input.set_session_id(Some("ses_1".to_string()));
    assert_eq!(
        input.plan_send("hi"),
        SendPlan::ToSession {
            session_id: "ses_1".to_string(),
            text: "hi".to_string(),
            provider_id: "acme".to_string(),
            model_id: "lyra".to_string(),
            agent: "plan".to_string()
        }
    );
}

#[test]
fn placeholder_and_send_button() {
    assert!(is_placeholder("Type a message..."));
    assert!(clear_on_focus("Type a message..."));
    assert!(!clear_on_focus("Type a message"));
    assert!(restore_placeholder(" \n"));
    assert!(restore_placeholder(""));
    assert!(!restore_placeholder(" x"));
    assert!(!send_enabled("Type a message..."));
    assert!(!send_enabled("  "));
    assert!(send_enabled(" hi "));
}

#[test]
fn enabled_send_is_not_refused_as_empty() {
    let input = MessageInput::new();
    for t in [" hi ", "x", "Type a message.."] {
        assert!(send_enabled(t));
        assert_ne!(input.plan_send(t), SendPlan::EmptyText);
    }
}

#[test]
fn height_grows_to_five_lines() {
    assert_eq!(input_height(0), 0);
    assert_eq!(input_height(1), 11);
    assert_eq!(input_height(5), 55);
    assert_eq!(input_height(40), 55);
}

#[test]
fn keys() {
    let send_stop = KeyResponse { send: true, stop: true };
    let stop = KeyResponse { send: false, stop: true };
    let pass = KeyResponse { send: false, stop: false };
    assert_eq!(key_pressed(Key::Return, false, false, true), send_stop);
    assert_eq!(key_pressed(Key::KeypadEnter, false, false, true), send_stop);
    assert_eq!(key_pressed(Key::Return, false, false, false), stop);
    assert_eq!(key_pressed(Key::Return, true, false, true), pass);
    assert_eq!(key_pressed(Key::Return, true, true, false), send_stop);
    assert_eq!(key_pressed(Key::KeypadEnter, true, true, true), pass);
    assert_eq!(key_pressed(Key::Other, false, true, true), pass);
}

#[test]
fn pending_message_and_request() {
    let m = pending_user_message("ses_1", "hello", "1234-abcd");
    assert_eq!(m.info.id, "temp-1234-abcd");
    assert_eq!(m.info.session_id.as_deref(), Some("ses_1"));
    assert_eq!(m.info.role, "user");
    assert_eq!(m.parts.len(), 1);
    assert_eq!(m.parts[0].text.as_deref(), Some("hello"));
    assert_eq!(m.parts[0].part_type, "text");
    let r = text_request("hello", "acme", "nova", "build");
    assert_eq!(r.parts, m.parts);
    assert_eq!(r.model.model_id, "nova");
    assert_eq!(r.model.provider_id, "acme");
    assert_eq!(r.agent, "build");
}

#[test]
fn height_of_odd_line_counts() {
    assert_eq!(input_height(-3), -33);
    assert_eq!(input_height(i32::MIN / 11), (i32::MIN / 11) * 11);
}
