//! The state of the session list: the sessions on show, in order, one row
//! each.
use vstd::prelude::*;
use crate::model::Session;
use crate::chat::same_text;
use crate::text::str_eq;

verus! {

/// The sessions of the session list, one row each, in order.
pub struct SessionList {
    pub sessions: Vec<Session>,
}

/// The label of a session's row: its title, or "Untitled".
pub open spec fn session_label(s: Session) -> Seq<char> {
    match s.title {
        Some(t) => t@,
        None => "Untitled"@,
    }
}

/// `i` is the first index of a session whose id is `id`.
pub open spec fn first_session_with_id(ss: Seq<Session>, id: Seq<char>, i: int) -> bool {
    &&& 0 <= i < ss.len()
    &&& ss[i].id@ == id
    &&& forall|j: int| 0 <= j < i ==> ss[j].id@ != id
}

/// No session in `ss` has id `id`.
pub open spec fn no_session_with_id(ss: Seq<Session>, id: Seq<char>) -> bool {
    forall|j: int| 0 <= j < ss.len() ==> (#[trigger] ss[j]).id@ != id
}

/// The row of the first session with id `id`, if any.
pub open spec fn row_of(ss: Seq<Session>, id: Seq<char>) -> Option<int> {
    if exists|i: int| first_session_with_id(ss, id, i) {
        Some(choose|i: int| first_session_with_id(ss, id, i))
    } else {
        None
    }
}

/// The id of the session of row `index`, if there is such a row.
pub open spec fn id_at(ss: Seq<Session>, index: int) -> Option<Seq<char>> {
    if 0 <= index < ss.len() {
        Some(ss[index].id@)
    } else {
        None
    }
}

proof fn lemma_first_row_unique(ss: Seq<Session>, id: Seq<char>, i: int, j: int)
    requires
        first_session_with_id(ss, id, i),
        first_session_with_id(ss, id, j),
    ensures
        i == j,
{
    if i < j {
        assert(ss[i].id@ != id);
    } else if j < i {
        assert(ss[j].id@ != id);
    }
}

proof fn lemma_first_row_exists(ss: Seq<Session>, id: Seq<char>, j: int)
    requires
        0 <= j < ss.len(),
        ss[j].id@ == id,
    ensures
        exists|i: int| first_session_with_id(ss, id, i),
    decreases j,
{
    if forall|k: int| 0 <= k < j ==> ss[k].id@ != id {
        assert(first_session_with_id(ss, id, j));
    } else {
        let k = choose|k: int| 0 <= k < j && ss[k].id@ == id;
        lemma_first_row_exists(ss, id, k);
    }
}

impl SessionList {
    /// An empty list.
    pub fn new() -> (l: SessionList)
        ensures
            l.sessions@.len() == 0,
    {
        SessionList { sessions: Vec::new() }
    }

    /// Shows the sessions the server listed, and gives the label of each
    /// row in order.
    pub fn refresh_sessions(&mut self, fetched: Vec<Session>) -> (labels: Vec<String>)
        ensures
            final(self).sessions@ == fetched@,
            labels@.len() == fetched@.len(),
            forall|k: int|
                0 <= k < labels@.len() ==> (#[trigger] labels@[k])@ == session_label(fetched@[k]),
    {
        self.sessions = fetched;
        let mut labels: Vec<String> = Vec::new();
        for i in 0..self.sessions.len()
            invariant
                labels@.len() == i,
                forall|k: int|
                    0 <= k < i ==> (#[trigger] labels@[k])@ == session_label(self.sessions@[k]),
        {
            let label = match &self.sessions[i].title {
                Some(t) => t.clone(),
                None => String::from_str("Untitled"),
            };
            labels.push(label);
        }
        labels
    }

    /// The id of the session of row `index`, when there is such a row.
    pub fn session_id_at(&self, index: usize) -> (id: Option<String>)
        ensures
            match id {
                Some(s) => index < self.sessions@.len() && s@ == self.sessions@[index as int].id@,
                None => index >= self.sessions@.len(),
            },
            match id {
                Some(s) => id_at(self.sessions@, index as int) == Some(s@),
                None => id_at(self.sessions@, index as int) is None,
            },
    {
        if index < self.sessions.len() {
            Some(self.sessions[index].id.clone())
        } else {
            None
        }
    }

    /// The row of the first session with id `session_id`.
    pub fn select_session(&self, session_id: &str) -> (row: Option<usize>)
        ensures
            match row {
                Some(i) => first_session_with_id(self.sessions@, session_id@, i as int),
                None => no_session_with_id(self.sessions@, session_id@),
            },
            match row {
                Some(i) => row_of(self.sessions@, session_id@) == Some(i as int),
                None => row_of(self.sessions@, session_id@) is None,
            },
    {
        let mut i: usize = 0;
        while i < self.sessions.len()
            invariant
                i <= self.sessions.len(),
                forall|j: int| 0 <= j < i ==> self.sessions@[j].id@ != session_id@,
            decreases self.sessions.len() - i,
        {
            if str_eq(self.sessions[i].id.as_str(), session_id) {
                proof {
                    let ghost ss = self.sessions@;
                    assert(first_session_with_id(ss, session_id@, i as int));
                    let c = choose|k: int| first_session_with_id(ss, session_id@, k);
                    lemma_first_row_unique(ss, session_id@, i as int, c);
                }
                return Some(i);
            }
            i = i + 1;
        }
        None
    }

    /// The title of the first session with id `session_id`; none when there
    /// is no such session or it has no title.
    pub fn get_session_title(&self, session_id: &str) -> (title: Option<String>)
        ensures
            forall|i: int|
                first_session_with_id(self.sessions@, session_id@, i) ==> same_text(
                    title,
                    #[trigger] self.sessions@[i].title,
                ),
            no_session_with_id(self.sessions@, session_id@) ==> title is None,
    {
        match self.select_session(session_id) {
            Some(i) => match &self.sessions[i].title {
                Some(t) => Some(t.clone()),
                None => None,
            },
            None => None,
        }
    }
}

} // verus!

verus! {

/// Selecting a session by id and then reading the id of the selected row
/// gives the id back; and a row is found exactly when some session has that
/// id.
pub proof fn lemma_selected_row_has_id(ss: Seq<Session>, id: Seq<char>)
    ensures
        row_of(ss, id) matches Some(i) ==> id_at(ss, i) == Some(id),
        row_of(ss, id) is None <==> no_session_with_id(ss, id),
{
    if !no_session_with_id(ss, id) {
        let j = choose|j: int| 0 <= j < ss.len() && (#[trigger] ss[j]).id@ == id;
        lemma_first_row_exists(ss, id, j);
    }
}

} // verus!
