use opencode_gtk::model::Session;
use opencode_gtk::sessions::SessionList;

fn s(id: &str, title: Option<&str>) -> Session {
    Session { id: id.to_string(), title: title.map(|t| t.to_string()) }
}

#[test]
fn rows_are_labelled_by_title() {
    let mut l = SessionList::new();
    let labels = l.refresh_sessions(vec![s("a", Some("First")), s("b", None), s("c", Some(""))]);
    assert_eq!(labels, vec!["First".to_string(), "Untitled".to_string(), "".to_string()]);
    assert_eq!(l.sessions.len(), 3);
    assert!(l.refresh_sessions(vec![]).is_empty());
    assert!(l.sessions.is_empty());
}

#[test]
fn rows_and_ids() {
    let mut l = SessionList::new();
    l.refresh_sessions(vec![s("a", Some("First")), s("b", None), s("a", Some("Dup"))]);
    assert_eq!(l.session_id_at(1), Some("b".to_string()));
    assert_eq!(l.session_id_at(3), None);
    assert_eq!(l.select_session("a"), Some(0));
    assert_eq!(l.select_session("z"), None);
    assert_eq!(l.get_session_title("a"), Some("First".to_string()));
    assert_eq!(l.get_session_title("b"), None);
    assert_eq!(l.get_session_title("z"), None);
}

#[test]
fn selected_row_holds_the_session() {
    let mut l = SessionList::new();
    l.refresh_sessions(vec![s("x", None), s("y", None)]);
    for id in ["x", "y"] {
        let row = l.select_session(id).unwrap();
        assert_eq!(l.session_id_at(row).as_deref(), Some(id));
    }
}
