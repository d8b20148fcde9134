//! The route table, its builder, and the per-request dispatch decision.

use vstd::prelude::*;

use crate::static_files::{join_root, join_to_root, lemma_static_target_under_root, normalize_path, resolve_static_path, static_target};
use crate::text::begins_with;

verus! {

/// The request methods that the router tells apart.
#[derive(Clone, Copy, Debug, PartialEq, Eq, Structural)]
pub enum Method {
    Get,
    Post,
    /// Any other method: it never matches a route.
    Other,
}

/// The map that a list of registrations builds: a later entry for a path
/// replaces an earlier one.
pub open spec fn table_map<H>(entries: Seq<(String, H)>) -> Map<Seq<char>, H>
    decreases entries.len(),
{
    if entries.len() == 0 {
        Map::empty()
    } else {
        table_map(entries.drop_last()).insert(entries.last().0@, entries.last().1)
    }
}

/// What a route table is: one map per method, a static root, whether static
/// serving is on, and the not-found page, if one was configured apart.
pub struct ForgeView<H> {
    pub gets: Map<Seq<char>, H>,
    pub posts: Map<Seq<char>, H>,
    pub static_root: Seq<char>,
    pub static_enabled: bool,
    pub not_found_page: Option<Seq<char>>,
}

/// The table of `method`, if the method has one.
pub open spec fn routes_of<H>(v: ForgeView<H>, method: Method) -> Map<Seq<char>, H> {
    match method {
        Method::Get => v.gets,
        Method::Post => v.posts,
        Method::Other => Map::empty(),
    }
}

/// The handler registered for `(method, path)`.
pub open spec fn handler_for<H>(v: ForgeView<H>, method: Method, path: Seq<char>) -> Option<H> {
    if routes_of(v, method).contains_key(path) {
        Some(routes_of(v, method)[path])
    } else {
        None
    }
}

/// The table after `h` is registered for `(method, path)`; registering for
/// another method changes nothing.
pub open spec fn registered<H>(v: ForgeView<H>, method: Method, path: Seq<char>, h: H) -> ForgeView<H> {
    match method {
        Method::Get => ForgeView { gets: v.gets.insert(path, h), ..v },
        Method::Post => ForgeView { posts: v.posts.insert(path, h), ..v },
        Method::Other => v,
    }
}

/// The outcome of dispatching one request, as a value.
pub enum Outcome<H> {
    Routed(H),
    StaticFallback(Seq<char>),
    NotFound,
}

/// Dispatch: a registered route first; then, for GET only and with static
/// serving on, the file under the static root that the path names once its
/// dot segments are resolved (not found when it would lie above the root);
/// else not found.
pub open spec fn dispatch<H>(v: ForgeView<H>, method: Method, path: Seq<char>) -> Outcome<H> {
    match handler_for(v, method, path) {
        Some(h) => Outcome::Routed(h),
        None => if method == Method::Get && v.static_enabled {
            match static_target(v.static_root, path) {
                Some(f) => Outcome::StaticFallback(f),
                None => Outcome::NotFound,
            }
        } else {
            Outcome::NotFound
        },
    }
}

/// The not-found page to try: the one configured apart, else `404/index.html`
/// under the static root when static serving is on.
pub open spec fn not_found_page_of<H>(v: ForgeView<H>) -> Option<Seq<char>> {
    match v.not_found_page {
        Some(p) => Some(p),
        None => if v.static_enabled {
            Some(join_root(v.static_root, "/404/index.html"@))
        } else {
            None
        },
    }
}

/// The decision for one request.
pub enum Dispatch<'a, H> {
    /// A route matched: call this handler and send back what it returns.
    Routed(&'a H),
    /// No route matched a GET: read this file and serve it.
    StaticFallback(String),
    /// Nothing matched: send the not-found response.
    NotFound,
}

impl<'a, H> Dispatch<'a, H> {
    /// The decision as a value.
    pub open spec fn outcome(&self) -> Outcome<H> {
        match self {
            Dispatch::Routed(h) => Outcome::Routed(**h),
            Dispatch::StaticFallback(f) => Outcome::StaticFallback(f@),
            Dispatch::NotFound => Outcome::NotFound,
        }
    }
}

/// A frozen route table with its static configuration. It has no method that
/// changes it: every request is dispatched against the same table.
pub struct WiredForge<H> {
    /// Registrations in order, read through `table_map`: a `HashMap` keyed
    /// by `String` carries no specification of what `insert` and `get` do.
    gets: Vec<(String, H)>,
    posts: Vec<(String, H)>,
    static_path: String,
    static_enabled: bool,
    not_found_page: Option<String>,
}

impl<H> View for WiredForge<H> {
    type V = ForgeView<H>;

    closed spec fn view(&self) -> ForgeView<H> {
        ForgeView {
            gets: table_map(self.gets@),
            posts: table_map(self.posts@),
            static_root: self.static_path@,
            static_enabled: self.static_enabled,
            not_found_page: match self.not_found_page {
                Some(p) => Some(p@),
                None => None,
            },
        }
    }
}

/// Past the index `upto`, no entry of `entries` has the key `key`: the map
/// of the first `upto` entries holds the same for `key`.
proof fn lemma_table_prefix<H>(entries: Seq<(String, H)>, upto: int, key: Seq<char>)
    requires
        0 <= upto <= entries.len(),
        forall|j: int| upto <= j < entries.len() ==> entries[j].0@ != key,
    ensures
        table_map(entries).contains_key(key) == table_map(entries.subrange(0, upto)).contains_key(key),
        table_map(entries).contains_key(key) ==> table_map(entries)[key] == table_map(
            entries.subrange(0, upto),
        )[key],
    decreases entries.len() - upto,
{
    if upto < entries.len() {
        let shorter = entries.drop_last();
        assert(entries.subrange(0, upto) =~= shorter.subrange(0, upto));
        lemma_table_prefix(shorter, upto, key);
    } else {
        assert(entries.subrange(0, upto) =~= entries);
    }
}

/// The handler that `entries` maps `path` to, found from the last entry back.
fn find_route<'a, H>(entries: &'a Vec<(String, H)>, path: &str) -> (r: Option<&'a H>)
    ensures
        r.is_some() == table_map(entries@).contains_key(path@),
        r.is_some() ==> *r.unwrap() == table_map(entries@)[path@],
{
    let key = path.to_owned();
    let mut i: usize = entries.len();
    while i > 0
        invariant
            i <= entries.len(),
            key@ == path@,
            forall|j: int| i <= j < entries.len() ==> entries@[j].0@ != path@,
        decreases i,
    {
        let e = &entries[i - 1];
        if e.0 == key {
            proof {
                let upto = i as int;
                lemma_table_prefix(entries@, upto, path@);
                let pre = entries@.subrange(0, upto);
                assert(pre.drop_last() =~= entries@.subrange(0, upto - 1));
                assert(pre.last() == entries@[upto - 1]);
            }
            return Some(&e.1);
        }
        i = i - 1;
    }
    proof {
        lemma_table_prefix(entries@, 0, path@);
        assert(entries@.subrange(0, 0) =~= Seq::<(String, H)>::empty());
    }
    None
}

impl<H> WiredForge<H> {
    /// The handler registered for `(method, path)`; exact match only.
    pub fn lookup(&self, method: Method, path: &str) -> (r: Option<&H>)
        ensures
            r.is_some() == handler_for(self@, method, path@).is_some(),
            r.is_some() ==> handler_for(self@, method, path@) == Some(*r.unwrap()),
    {
        match method {
            Method::Get => find_route(&self.gets, path),
            Method::Post => find_route(&self.posts, path),
            Method::Other => None,
        }
    }

    /// The file under the static root that `path` names once its dot
    /// segments are resolved; `None` when a `..` would go above the root.
    /// Every file it names lies under the root, after a separator.
    pub fn static_file(&self, path: &str) -> (r: Option<String>)
        ensures
            r is Some == static_target(self@.static_root, path@) is Some,
            r is Some ==> r.unwrap()@ == static_target(self@.static_root, path@).unwrap(),
            r is Some ==> begins_with(r.unwrap()@, join_root(self@.static_root, seq!['/'])),
    {
        proof {
            lemma_static_target_under_root(self@.static_root, path@);
        }
        match normalize_path(path) {
            Some(clean) => Some(resolve_static_path(self.static_path.as_str(), clean.as_str())),
            None => None,
        }
    }

    /// What to do with a request for `path` by `method`: its route's handler,
    /// else (GET only, with static serving on) the static file, else not found.
    pub fn call(&self, method: Method, path: &str) -> (r: Dispatch<'_, H>)
        ensures
            r.outcome() == dispatch(self@, method, path@),
    {
        match self.lookup(method, path) {
            Some(h) => Dispatch::Routed(h),
            None => {
                if method == Method::Get && self.static_enabled {
                    match self.static_file(path) {
                        Some(file) => Dispatch::StaticFallback(file),
                        None => Dispatch::NotFound,
                    }
                } else {
                    Dispatch::NotFound
                }
            },
        }
    }

    /// The file path of the not-found page to try, if there is one.
    pub fn not_found_path(&self) -> (r: Option<String>)
        ensures
            r.is_some() == not_found_page_of(self@).is_some(),
            r.is_some() ==> not_found_page_of(self@) == Some(r.unwrap()@),
    {
        match &self.not_found_page {
            Some(p) => Some(p.clone()),
            None => if self.static_enabled {
                Some(join_to_root(self.static_path.as_str(), "/404/index.html"))
            } else {
                None
            },
        }
    }

    /// Whether GET requests that match no route fall back to static files.
    pub fn static_enabled(&self) -> (r: bool)
        ensures
            r == self@.static_enabled,
    {
        self.static_enabled
    }

    /// The static root directory.
    pub fn static_path(&self) -> (r: &str)
        ensures
            r@ == self@.static_root,
    {
        self.static_path.as_str()
    }
}

/// A startup configuration that cannot be used.
#[derive(Debug, PartialEq, Eq)]
pub enum ConfigError {
    /// The static root does not exist or is not a directory.
    StaticRootMissing(String),
}

/// Builds a route table at startup; `build` freezes it.
pub struct WiredForgeBuilder<H> {
    server: WiredForge<H>,
}

impl<H> View for WiredForgeBuilder<H> {
    type V = ForgeView<H>;

    closed spec fn view(&self) -> ForgeView<H> {
        self.server@
    }
}

impl<H> WiredForgeBuilder<H> {
    /// An empty table, with static serving off.
    pub fn new() -> (r: WiredForgeBuilder<H>)
        ensures
            r@.gets == Map::<Seq<char>, H>::empty(),
            r@.posts == Map::<Seq<char>, H>::empty(),
            r@.static_root == Seq::<char>::empty(),
            !r@.static_enabled,
            r@.not_found_page is None,
    {
        let server = WiredForge {
            gets: Vec::new(),
            posts: Vec::new(),
            static_path: String::new(),
            static_enabled: false,
            not_found_page: None,
        };
        proof {
            assert(table_map(server.gets@) =~= Map::<Seq<char>, H>::empty());
            assert(table_map(server.posts@) =~= Map::<Seq<char>, H>::empty());
        }
        WiredForgeBuilder { server }
    }

    /// Registers `callback` for GET `route`, replacing an earlier one.
    pub fn get(&mut self, route: String, callback: H) -> (r: &WiredForgeBuilder<H>)
        ensures
            final(self)@ == registered(old(self)@, Method::Get, route@, callback),
            *r == *final(self),
    {
        let ghost before = self.server.gets@;
        self.server.gets.push((route, callback));
        proof {
            assert(self.server.gets@.drop_last() =~= before);
        }
        self
    }

    /// Registers `callback` for POST `route`, replacing an earlier one.
    pub fn post(&mut self, route: String, callback: H) -> (r: &WiredForgeBuilder<H>)
        ensures
            final(self)@ == registered(old(self)@, Method::Post, route@, callback),
            *r == *final(self),
    {
        let ghost before = self.server.posts@;
        self.server.posts.push((route, callback));
        proof {
            assert(self.server.posts@.drop_last() =~= before);
        }
        self
    }

    /// Serves GET requests that match no route from the directory `path`;
    /// `is_dir` tells whether that directory exists. If it does not, nothing
    /// changes and the error names the path.
    pub fn set_static(&mut self, path: String, is_dir: bool) -> (r: Result<(), ConfigError>)
        ensures
            is_dir ==> r is Ok && final(self)@ == (ForgeView {
                static_root: path@,
                static_enabled: true,
                ..old(self)@
            }),
            !is_dir ==> r == Err::<(), ConfigError>(ConfigError::StaticRootMissing(path))
                && final(self)@ == old(self)@,
    {
        if is_dir {
            self.server.static_path = path;
            self.server.static_enabled = true;
            Ok(())
        } else {
            Err(ConfigError::StaticRootMissing(path))
        }
    }

    /// Uses the file `path` as the not-found page, in place of `404/index.html`
    /// under the static root.
    pub fn set_not_found_page(&mut self, path: String)
        ensures
            final(self)@ == (ForgeView { not_found_page: Some(path@), ..old(self)@ }),
    {
        self.server.not_found_page = Some(path);
    }

    /// Freezes the table: what it maps stays as it was built.
    pub fn build(self) -> (r: WiredForge<H>)
        ensures
            r@ == self@,
    {
        self.server
    }
}

/// The table after the registrations `regs`, in order, each a method, a
/// path and a handler.
pub open spec fn registered_all<H>(v: ForgeView<H>, regs: Seq<(Method, Seq<char>, H)>) -> ForgeView<H>
    decreases regs.len(),
{
    if regs.len() == 0 {
        v
    } else {
        registered(registered_all(v, regs.drop_last()), regs.last().0, regs.last().1, regs.last().2)
    }
}

/// Last registration wins: after any sequence of registrations, a GET or
/// POST `(method, path)` maps to the handler of the last registration for
/// it, and a pair that was never registered keeps what it had.
pub proof fn lemma_last_registration_wins<H>(
    v: ForgeView<H>,
    regs: Seq<(Method, Seq<char>, H)>,
    method: Method,
    path: Seq<char>,
)
    requires
        method != Method::Other,
    ensures
        forall|i: int|
            0 <= i < regs.len() && regs[i].0 == method && regs[i].1 == path && (forall|j: int|
                i < j < regs.len() ==> !(regs[j].0 == method && regs[j].1 == path)) ==> handler_for(
                registered_all(v, regs),
                method,
                path,
            ) == Some(#[trigger] regs[i].2),
        (forall|j: int| 0 <= j < regs.len() ==> !(regs[j].0 == method && regs[j].1 == path))
            ==> handler_for(registered_all(v, regs), method, path) == handler_for(v, method, path),
    decreases regs.len(),
{
    if regs.len() > 0 {
        let prev = regs.drop_last();
        lemma_last_registration_wins(v, prev, method, path);
        assert forall|i: int|
            0 <= i < regs.len() && regs[i].0 == method && regs[i].1 == path && (forall|j: int|
                i < j < regs.len() ==> !(regs[j].0 == method && regs[j].1 == path)) implies handler_for(
            registered_all(v, regs),
            method,
            path,
        ) == Some(#[trigger] regs[i].2) by {
            if i < regs.len() - 1 {
                assert(prev[i] == regs[i]);
                assert forall|j: int| i < j < prev.len() implies !(prev[j].0 == method && prev[j].1
                    == path) by {
                    assert(prev[j] == regs[j]);
                }
            }
        }
        if forall|j: int| 0 <= j < regs.len() ==> !(regs[j].0 == method && regs[j].1 == path) {
            assert forall|j: int| 0 <= j < prev.len() implies !(prev[j].0 == method && prev[j].1
                == path) by {
                assert(prev[j] == regs[j]);
            }
        }
    }
}

/// A request whose path has no route: a POST is never served from static
/// files; a GET is served from the static file that the path names when
/// static serving is on and the path stays under the root, and is not found
/// when static serving is off.
pub proof fn lemma_unrouted_requests<H>(v: ForgeView<H>, path: Seq<char>)
    ensures
        !v.posts.contains_key(path) ==> dispatch(v, Method::Post, path) == Outcome::<H>::NotFound,
        !v.gets.contains_key(path) && v.static_enabled && static_target(v.static_root, path) is Some
            ==> dispatch(v, Method::Get, path) == Outcome::<H>::StaticFallback(
            static_target(v.static_root, path).unwrap(),
        ),
        !v.gets.contains_key(path) && !v.static_enabled ==> dispatch(v, Method::Get, path)
            == Outcome::<H>::NotFound,
        dispatch(v, Method::Other, path) == Outcome::<H>::NotFound,
{
}

/// The outcome of a request depends on the frozen table's value alone: any
/// two requests with the same method and path, against tables built alike,
/// get the same outcome, whatever else runs beside them.
pub proof fn lemma_frozen_table_agrees<H>(
    a: &WiredForge<H>,
    b: &WiredForge<H>,
    method: Method,
    path: Seq<char>,
)
    requires
        a@ == b@,
    ensures
        dispatch(a@, method, path) == dispatch(b@, method, path),
{
}

} // verus!
