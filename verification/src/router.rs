use vstd::prelude::*;
use vstd::string::*;

use crate::text::str_eq;

verus! {

/// The path shapes the router knows, all under the common `/api` prefix:
/// a collection, or one row of it by the identifier segment, or an
/// association collection by its owner segment.
pub enum PathMatch {
    Status,
    Records,
    Record { id: String },
    Stores,
    Store { id: String },
    Users,
    User { id: String },
    UserRecords { user_id: String },
    Wishlist { user_id: String },
    UserStores { user_id: String },
    Notes,
    Note { id: String },
}

/// The mathematical value of a matched path.
pub ghost enum PathMatchV {
    Status,
    Records,
    Record { id: Seq<char> },
    Stores,
    Store { id: Seq<char> },
    Users,
    User { id: Seq<char> },
    UserRecords { user_id: Seq<char> },
    Wishlist { user_id: Seq<char> },
    UserStores { user_id: Seq<char> },
    Notes,
    Note { id: Seq<char> },
}

impl View for PathMatch {
    type V = PathMatchV;

    open spec fn view(&self) -> PathMatchV {
        match self {
            PathMatch::Status => PathMatchV::Status,
            PathMatch::Records => PathMatchV::Records,
            PathMatch::Record { id } => PathMatchV::Record { id: id@ },
            PathMatch::Stores => PathMatchV::Stores,
            PathMatch::Store { id } => PathMatchV::Store { id: id@ },
            PathMatch::Users => PathMatchV::Users,
            PathMatch::User { id } => PathMatchV::User { id: id@ },
            PathMatch::UserRecords { user_id } => PathMatchV::UserRecords { user_id: user_id@ },
            PathMatch::Wishlist { user_id } => PathMatchV::Wishlist { user_id: user_id@ },
            PathMatch::UserStores { user_id } => PathMatchV::UserStores { user_id: user_id@ },
            PathMatch::Notes => PathMatchV::Notes,
            PathMatch::Note { id } => PathMatchV::Note { id: id@ },
        }
    }
}

/// What remains of `p` after the fixed prefix, when `p` starts with it.
pub open spec fn spec_strip(p: Seq<char>, prefix: Seq<char>) -> Option<Seq<char>> {
    if p.len() >= prefix.len() && p.subrange(0, prefix.len() as int) == prefix {
        Some(p.subrange(prefix.len() as int, p.len() as int))
    } else {
        None
    }
}

/// A valid identifier segment: nonempty and free of separators.
pub open spec fn seg_ok(s: Seq<char>) -> bool {
    s.len() > 0 && !s.contains('/')
}

/// A template rule matches: the path is the fixed prefix followed by one
/// valid segment.
pub open spec fn tail_seg(p: Seq<char>, prefix: Seq<char>) -> bool {
    match spec_strip(p, prefix) {
        Some(rest) => seg_ok(rest),
        None => false,
    }
}

/// The route table: the path shape a request path resolves to, if any.
/// A template's identifier segment never spans a separator, so the rules
/// are disjoint and their order is immaterial.
pub open spec fn spec_match_path(p: Seq<char>) -> Option<PathMatchV> {
    if p == "/api/status"@ {
        Some(PathMatchV::Status)
    } else if p == "/api/records"@ {
        Some(PathMatchV::Records)
    } else if p == "/api/stores"@ {
        Some(PathMatchV::Stores)
    } else if p == "/api/users"@ {
        Some(PathMatchV::Users)
    } else if p == "/api/notes"@ {
        Some(PathMatchV::Notes)
    } else if tail_seg(p, "/api/users/records/"@) {
        Some(PathMatchV::UserRecords { user_id: spec_strip(p, "/api/users/records/"@)->Some_0 })
    } else if tail_seg(p, "/api/records/wishlist/"@) {
        Some(PathMatchV::Wishlist { user_id: spec_strip(p, "/api/records/wishlist/"@)->Some_0 })
    } else if tail_seg(p, "/api/record_stores/"@) {
        Some(PathMatchV::UserStores { user_id: spec_strip(p, "/api/record_stores/"@)->Some_0 })
    } else if tail_seg(p, "/api/records/"@) {
        Some(PathMatchV::Record { id: spec_strip(p, "/api/records/"@)->Some_0 })
    } else if tail_seg(p, "/api/stores/"@) {
        Some(PathMatchV::Store { id: spec_strip(p, "/api/stores/"@)->Some_0 })
    } else if tail_seg(p, "/api/users/"@) {
        Some(PathMatchV::User { id: spec_strip(p, "/api/users/"@)->Some_0 })
    } else if tail_seg(p, "/api/notes/"@) {
        Some(PathMatchV::Note { id: spec_strip(p, "/api/notes/"@)->Some_0 })
    } else {
        None
    }
}

/// Strips a fixed prefix off a path, character for character.
fn strip_prefix_str(s: &str, prefix: &str) -> (r: Option<String>)
    ensures
        match r {
            Some(rest) => spec_strip(s@, prefix@) == Some(rest@),
            None => spec_strip(s@, prefix@) is None,
        },
{
    let n = prefix.unicode_len();
    let m = s.unicode_len();
    if m < n {
        return None;
    }
    let mut i: usize = 0;
    while i < n
        invariant
            i <= n,
            n == prefix@.len(),
            n <= m,
            m == s@.len(),
            forall|k: int| 0 <= k < i ==> s@[k] == prefix@[k],
        decreases n - i,
    {
        if s.get_char(i) != prefix.get_char(i) {
            proof {
                assert(s@.subrange(0, n as int)[i as int] != prefix@[i as int]);
            }
            return None;
        }
        i += 1;
    }
    proof {
        assert(s@.subrange(0, n as int) =~= prefix@);
    }
    let rest = s.substring_char(n, m);
    Some(rest.to_owned())
}

/// Whether the segment is nonempty and free of separators.
fn check_seg(s: &str) -> (r: bool)
    ensures
        r == seg_ok(s@),
{
    let n = s.unicode_len();
    if n == 0 {
        return false;
    }
    let mut i: usize = 0;
    while i < n
        invariant
            i <= n,
            n == s@.len(),
            forall|k: int| 0 <= k < i ==> s@[k] != '/',
        decreases n - i,
    {
        if s.get_char(i) == '/' {
            proof {
                assert(s@.contains('/'));
            }
            return false;
        }
        i += 1;
    }
    proof {
        assert(!s@.contains('/'));
    }
    true
}

/// Tries one template rule: the fixed prefix followed by one valid
/// segment.
fn match_tail(path: &str, prefix: &str) -> (r: Option<String>)
    ensures
        match r {
            Some(id) => tail_seg(path@, prefix@) && spec_strip(path@, prefix@) == Some(id@),
            None => !tail_seg(path@, prefix@),
        },
{
    match strip_prefix_str(path, prefix) {
        Some(rest) => {
            if check_seg(rest.as_str()) {
                Some(rest)
            } else {
                None
            }
        },
        None => None,
    }
}

/// Resolves a request path against the route table.
pub fn match_path(path: &str) -> (r: Option<PathMatch>)
    ensures
        match r {
            Some(m) => spec_match_path(path@) == Some(m@),
            None => spec_match_path(path@) is None,
        },
{
    if str_eq(path, "/api/status") {
        return Some(PathMatch::Status);
    }
    if str_eq(path, "/api/records") {
        return Some(PathMatch::Records);
    }
    if str_eq(path, "/api/stores") {
        return Some(PathMatch::Stores);
    }
    if str_eq(path, "/api/users") {
        return Some(PathMatch::Users);
    }
    if str_eq(path, "/api/notes") {
        return Some(PathMatch::Notes);
    }
    if let Some(user_id) = match_tail(path, "/api/users/records/") {
        return Some(PathMatch::UserRecords { user_id });
    }
    if let Some(user_id) = match_tail(path, "/api/records/wishlist/") {
        return Some(PathMatch::Wishlist { user_id });
    }
    if let Some(user_id) = match_tail(path, "/api/record_stores/") {
        return Some(PathMatch::UserStores { user_id });
    }
    if let Some(id) = match_tail(path, "/api/records/") {
        return Some(PathMatch::Record { id });
    }
    if let Some(id) = match_tail(path, "/api/stores/") {
        return Some(PathMatch::Store { id });
    }
    if let Some(id) = match_tail(path, "/api/users/") {
        return Some(PathMatch::User { id });
    }
    if let Some(id) = match_tail(path, "/api/notes/") {
        return Some(PathMatch::Note { id });
    }
    None
}

/// An HTTP method the route table speaks of.
#[derive(PartialEq, Eq, Structural)]
pub enum Verb {
    Get,
    Post,
    Put,
    Patch,
    Delete,
}

/// The method a request line names, if the table knows it.
pub open spec fn spec_parse_verb(m: Seq<char>) -> Option<Verb> {
    if m == "GET"@ {
        Some(Verb::Get)
    } else if m == "POST"@ {
        Some(Verb::Post)
    } else if m == "PUT"@ {
        Some(Verb::Put)
    } else if m == "PATCH"@ {
        Some(Verb::Patch)
    } else if m == "DELETE"@ {
        Some(Verb::Delete)
    } else {
        None
    }
}

pub fn parse_verb(method: &str) -> (r: Option<Verb>)
    ensures
        r == spec_parse_verb(method@),
{
    if str_eq(method, "GET") {
        Some(Verb::Get)
    } else if str_eq(method, "POST") {
        Some(Verb::Post)
    } else if str_eq(method, "PUT") {
        Some(Verb::Put)
    } else if str_eq(method, "PATCH") {
        Some(Verb::Patch)
    } else if str_eq(method, "DELETE") {
        Some(Verb::Delete)
    } else {
        None
    }
}

/// The fixed method table: which methods each path shape answers.
pub open spec fn spec_allows(m: PathMatchV, verb: Verb) -> bool {
    match m {
        PathMatchV::Status => verb == Verb::Get,
        PathMatchV::Records => verb == Verb::Get || verb == Verb::Post,
        PathMatchV::Record { .. } => verb == Verb::Get || verb == Verb::Patch || verb
            == Verb::Delete,
        PathMatchV::Stores => verb == Verb::Get || verb == Verb::Post,
        PathMatchV::Store { .. } => verb == Verb::Get || verb == Verb::Patch || verb
            == Verb::Delete,
        PathMatchV::Users => verb == Verb::Get || verb == Verb::Post,
        PathMatchV::User { .. } => verb == Verb::Get || verb == Verb::Patch || verb
            == Verb::Delete,
        PathMatchV::UserRecords { .. } => true,
        PathMatchV::Wishlist { .. } => true,
        PathMatchV::UserStores { .. } => verb != Verb::Patch,
        PathMatchV::Notes => verb == Verb::Get || verb == Verb::Post,
        PathMatchV::Note { .. } => verb == Verb::Get || verb == Verb::Patch || verb
            == Verb::Delete,
    }
}

/// Whether the matched path answers the method.
pub fn allows(m: &PathMatch, verb: Verb) -> (r: bool)
    ensures
        r == spec_allows(m@, verb),
{
    match m {
        PathMatch::Status => verb == Verb::Get,
        PathMatch::Records => verb == Verb::Get || verb == Verb::Post,
        PathMatch::Record { .. } => verb == Verb::Get || verb == Verb::Patch || verb
            == Verb::Delete,
        PathMatch::Stores => verb == Verb::Get || verb == Verb::Post,
        PathMatch::Store { .. } => verb == Verb::Get || verb == Verb::Patch || verb
            == Verb::Delete,
        PathMatch::Users => verb == Verb::Get || verb == Verb::Post,
        PathMatch::User { .. } => verb == Verb::Get || verb == Verb::Patch || verb
            == Verb::Delete,
        PathMatch::UserRecords { .. } => true,
        PathMatch::Wishlist { .. } => true,
        PathMatch::UserStores { .. } => !(verb == Verb::Patch),
        PathMatch::Notes => verb == Verb::Get || verb == Verb::Post,
        PathMatch::Note { .. } => verb == Verb::Get || verb == Verb::Patch || verb
            == Verb::Delete,
    }
}

/// What the router resolves a request line to: the path shape, provided
/// the path is in the table and the shape answers the method.
pub open spec fn spec_dispatch(method: Seq<char>, path: Seq<char>) -> Option<PathMatchV> {
    match (spec_parse_verb(method), spec_match_path(path)) {
        (Some(verb), Some(m)) => if spec_allows(m, verb) {
            Some(m)
        } else {
            None
        },
        _ => None,
    }
}

/// Resolves a request line against the route table.
pub fn dispatch(method: &str, path: &str) -> (r: Option<PathMatch>)
    ensures
        match r {
            Some(m) => spec_dispatch(method@, path@) == Some(m@),
            None => spec_dispatch(method@, path@) is None,
        },
{
    let verb = match parse_verb(method) {
        Some(v) => v,
        None => {
            return None;
        },
    };
    let m = match match_path(path) {
        Some(m) => m,
        None => {
            return None;
        },
    };
    if allows(&m, verb) {
        Some(m)
    } else {
        None
    }
}

} // verus!
