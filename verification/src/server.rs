//! Finding the server: the address the user gave, made into a URL, and the
//! address a freshly launched server announces.
use vstd::prelude::*;
use crate::text::{
    chars_of, find, occurs_at, occurs_in, starts_with, trim, trim_end, trim_start, trimmed,
    is_ws,
};

verus! {

/// The address given on the command line as a URL: kept when it starts with
/// "http://" or "https://", otherwise prefixed with "http://".
pub open spec fn normalized_url(s: Seq<char>) -> Seq<char> {
    if occurs_at(s, "http://"@, 0) || occurs_at(s, "https://"@, 0) {
        s
    } else {
        "http://"@ + s
    }
}

/// `i` is the first index at which `p` occurs in `s`.
pub open spec fn first_occurrence(s: Seq<char>, p: Seq<char>, i: int) -> bool {
    occurs_at(s, p, i) && forall|j: int| 0 <= j < i ==> !occurs_at(s, p, j)
}

/// The address given on the command line as a URL.
pub fn normalize_server_url(server: &str) -> (url: String)
    ensures
        url@ == normalized_url(server@),
{
    let s = chars_of(server);
    if starts_with(&s, &chars_of("http://")) || starts_with(&s, &chars_of("https://")) {
        String::from_str(server)
    } else {
        let mut url = String::from_str("http://");
        url.append(server);
        url
    }
}

/// The URL in a line a launched server printed: when the line says
/// "listening on", the line from the first "http://" on, trimmed.
pub fn detect_server_url(line: &str) -> (url: Option<String>)
    ensures
        match url {
            Some(u) => occurs_in(line@, "listening on"@) && exists|i: int|
                first_occurrence(line@, "http://"@, i) && u@ == #[trigger] trimmed(line@.skip(i)),
            None => !occurs_in(line@, "listening on"@) || !occurs_in(line@, "http://"@),
        },
{
    let v = chars_of(line);
    match find(&v, &chars_of("listening on")) {
        None => None,
        Some(_) => match find(&v, &chars_of("http://")) {
            None => None,
            Some(start) => {
                let mut rest: Vec<char> = Vec::new();
                let mut k: usize = start;
                while k < v.len()
                    invariant
                        v@ == line@,
                        start <= k <= v.len(),
                        rest@ == line@.subrange(start as int, k as int),
                    decreases v.len() - k,
                {
                    rest.push(v[k]);
                    k = k + 1;
                    assert(rest@ == line@.subrange(start as int, k as int));
                }
                assert(rest@ == line@.skip(start as int));
                let tail = crate::text::string_of(&rest);
                Some(trim(tail.as_str()))
            },
        },
    }
}

/// Normalizing an address twice is normalizing it once.
pub proof fn lemma_normalize_idempotent(s: Seq<char>)
    ensures
        normalized_url(normalized_url(s)) == normalized_url(s),
{
    let t = "http://"@ + s;
    if !(occurs_at(s, "http://"@, 0) || occurs_at(s, "https://"@, 0)) {
        assert(t.subrange(0, "http://"@.len() as int) == "http://"@);
        assert(occurs_at(t, "http://"@, 0));
    }
}

proof fn lemma_trim_end_keeps_prefix(s: Seq<char>, k: int)
    requires
        0 < k <= s.len(),
        !is_ws(s[k - 1]),
    ensures
        k <= trim_end(s).len() <= s.len(),
        trim_end(s) == s.take(trim_end(s).len() as int),
    decreases s.len(),
{
    if is_ws(s.last()) {
        assert(s.drop_last()[k - 1] == s[k - 1]);
        lemma_trim_end_keeps_prefix(s.drop_last(), k);
        assert(s.drop_last().take(trim_end(s).len() as int) == s.take(trim_end(s).len() as int));
    } else {
        assert(s.take(s.len() as int) == s);
    }
}

/// The URL found in a server's line starts with "http://".
pub proof fn lemma_detected_url_has_scheme(line: Seq<char>, i: int)
    requires
        first_occurrence(line, "http://"@, i),
    ensures
        occurs_at(trimmed(line.skip(i)), "http://"@, 0),
{
    reveal_strlit("http://");
    let s = line.skip(i);
    let p = "http://"@;
    assert(s.subrange(0, p.len() as int) == line.subrange(i, i + p.len()));
    assert(s[0] == p[0]);
    assert(trim_start(s) == s);
    assert(s[p.len() - 1] == p[p.len() - 1]);
    lemma_trim_end_keeps_prefix(s, p.len() as int);
    let t = trimmed(s);
    assert(t.subrange(0, p.len() as int) == s.subrange(0, p.len() as int));
}

} // verus!
