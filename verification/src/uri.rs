use vstd::prelude::*;

verus! {

/// A request target, split into the three parts the proxy reads and writes.
/// `authority` is `userinfo@host:port` as it stood on the wire; `scheme` is
/// absent on origin-form requests; `path_and_query` keeps everything after
/// the authority.
#[derive(Debug)]
pub struct UriParts {
    pub scheme: Option<String>,
    pub authority: Option<String>,
    pub path_and_query: String,
}

/// The mathematical content of a request target.
pub ghost struct UriView {
    pub scheme: Option<Seq<char>>,
    pub authority: Option<Seq<char>>,
    pub path_and_query: Seq<char>,
}

impl View for UriParts {
    type V = UriView;

    open spec fn view(&self) -> UriView {
        UriView {
            scheme: match self.scheme {
                Some(s) => Some(s@),
                None => None,
            },
            authority: match self.authority {
                Some(a) => Some(a@),
                None => None,
            },
            path_and_query: self.path_and_query@,
        }
    }
}

/// The position of the first occurrence of `c` in `s`, if any.
pub open spec fn find_char(s: Seq<char>, c: char) -> Option<int>
    decreases s.len(),
{
    if s.len() == 0 {
        None
    } else if s[0] == c {
        Some(0int)
    } else {
        match find_char(s.subrange(1, s.len() as int), c) {
            Some(i) => Some(i + 1),
            None => None,
        }
    }
}

/// What `find_char` answers: the first index holding `c`, or that no index does.
pub proof fn lemma_find_char(s: Seq<char>, c: char)
    ensures
        match find_char(s, c) {
            Some(i) => 0 <= i < s.len() && s[i] == c && (forall|k: int| 0 <= k < i ==> s[k] != c),
            None => forall|k: int| 0 <= k < s.len() ==> s[k] != c,
        },
    decreases s.len(),
{
    if s.len() > 0 && s[0] != c {
        let tail = s.subrange(1, s.len() as int);
        lemma_find_char(tail, c);
        assert(forall|k: int| 1 <= k < s.len() ==> s[k] == tail[k - 1]);
    }
}

/// The host inside an authority: what stands after the userinfo and before
/// the port. A bracketed address keeps its brackets, as the original wire
/// form does.
pub open spec fn host_of_spec(a: Seq<char>) -> Seq<char> {
    let rest = match find_char(a, '@') {
        Some(i) => a.subrange(i + 1, a.len() as int),
        None => a,
    };
    if rest.len() > 0 && rest[0] == '[' {
        match find_char(rest, ']') {
            Some(j) => rest.subrange(0, j + 1),
            None => rest,
        }
    } else {
        match find_char(rest, ':') {
            Some(j) => rest.subrange(0, j),
            None => rest,
        }
    }
}

/// First index of `c` in `s`, scanned left to right.
pub fn find_char_str(s: &str, c: char) -> (r: Option<usize>)
    ensures
        match r {
            Some(i) => find_char(s@, c) == Some(i as int),
            None => find_char(s@, c) is None,
        },
{
    proof {
        lemma_find_char(s@, c);
    }
    let n = s.unicode_len();
    let mut i: usize = 0;
    while i < n
        invariant
            n == s@.len(),
            i <= n,
            forall|k: int| 0 <= k < i ==> s@[k] != c,
        decreases n - i,
    {
        if s.get_char(i) == c {
            proof {
                lemma_find_char(s@, c);
            }
            return Some(i);
        }
        i += 1;
    }
    None
}

/// Substring by character positions, handed back as an owned string.
pub fn substring_owned(s: &str, from: usize, to: usize) -> (r: String)
    requires
        from <= to <= s@.len(),
    ensures
        r@ == s@.subrange(from as int, to as int),
{
    let sub = s.substring_char(from, to);
    sub.to_owned()
}

/// The host part of an authority string.
pub fn host_of(a: &str) -> (r: String)
    ensures
        r@ == host_of_spec(a@),
{
    proof {
        lemma_find_char(a@, '@');
    }
    let n = a.unicode_len();
    let rest: String = match find_char_str(a, '@') {
        Some(i) => substring_owned(a, i + 1, n),
        None => a.to_owned(),
    };
    proof {
        lemma_find_char(rest@, ']');
        lemma_find_char(rest@, ':');
    }
    let rest_len = rest.as_str().unicode_len();
    if rest_len > 0 && rest.as_str().get_char(0) == '[' {
        match find_char_str(rest.as_str(), ']') {
            Some(j) => substring_owned(rest.as_str(), 0, j + 1),
            None => rest,
        }
    } else {
        match find_char_str(rest.as_str(), ':') {
            Some(j) => substring_owned(rest.as_str(), 0, j),
            None => rest,
        }
    }
}

impl UriParts {
    /// The host named by this target's authority, if it has one.
    pub fn host(&self) -> (r: Option<String>)
        ensures
            match r {
                Some(h) => self@.authority is Some && h@ == host_of_spec(self@.authority->0),
                None => self@.authority is None,
            },
    {
        match &self.authority {
            Some(a) => Some(host_of(a.as_str())),
            None => None,
        }
    }

    /// The rewrite applied before a request is re-originated: the authority
    /// becomes the chosen host, and a missing scheme is forced to `https`;
    /// an existing scheme and the path and query stay as they were.
    pub fn rewrite(self, host: String) -> (r: UriParts)
        ensures
            r@.authority == Some(host@),
            r@.path_and_query == self@.path_and_query,
            self@.scheme is Some ==> r@.scheme == self@.scheme,
            self@.scheme is None ==> (r@.scheme matches Some(s) && s == "https"@),
    {
        let scheme = match self.scheme {
            Some(s) => Some(s),
            None => Some(String::from_str("https")),
        };
        UriParts { scheme, authority: Some(host), path_and_query: self.path_and_query }
    }
}

} // verus!
