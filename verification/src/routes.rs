//! The handlers that were registered, by path.
use vstd::hash_map::StringHashMap;
use vstd::prelude::*;

verus! {

/// The path under which the cache builder is registered.
pub const CREATE_CACHE: &'static str = "__create_cache";

/// The path under which the cache builder is registered.
pub open spec fn create_cache_path() -> Seq<char> {
    "__create_cache"@
}

/// Whether a path is served over HTTP: it starts with a slash.
pub open spec fn is_served(path: Seq<char>) -> bool {
    path.len() > 0 && path[0] == '/'
}

/// The characters of each text.
pub open spec fn texts(s: Seq<String>) -> Seq<Seq<char>> {
    s.map_values(|t: String| t@)
}

/// Handlers by path. Each path has at most one handler, the one that was
/// registered last.
#[verifier::reject_recursive_types(F)]
pub struct RouteTable<F> {
    handlers: StringHashMap<F>,
    paths: Vec<String>,
}

impl<F> View for RouteTable<F> {
    type V = Map<Seq<char>, F>;

    closed spec fn view(&self) -> Map<Seq<char>, F> {
        self.handlers@
    }
}

impl<F> RouteTable<F> {
    /// The list of paths names every path that has a handler, once.
    #[verifier::type_invariant]
    spec fn lists_every_path(self) -> bool {
        &&& texts(self.paths@).no_duplicates()
        &&& forall|p: Seq<char>| #[trigger]
            self.handlers@.contains_key(p) <==> texts(self.paths@).contains(p)
    }

    /// A table without handlers.
    pub fn new() -> (r: RouteTable<F>)
        ensures
            r@ == Map::<Seq<char>, F>::empty(),
    {
        RouteTable { handlers: StringHashMap::new(), paths: Vec::new() }
    }

    /// Registers `handler` under `path`, in place of the one that was there.
    pub fn insert(&mut self, path: &str, handler: F)
        ensures
            final(self)@ == old(self)@.insert(path@, handler),
    {
        proof {
            use_type_invariant(&*self);
        }
        let mut table: RouteTable<F> = RouteTable::new();
        std::mem::swap(&mut table, self);
        let known = table.handlers.contains_key(path);
        let RouteTable { handlers, paths } = table;
        let mut handlers = handlers;
        let mut paths = paths;
        let ghost before = texts(paths@);
        if !known {
            paths.push(path.to_owned());
            assert(texts(paths@) =~= before.push(path@));
            assert(texts(paths@).last() == path@);
        }
        handlers.insert(path.to_owned(), handler);
        assert forall|p: Seq<char>| #[trigger]
            handlers@.contains_key(p) <==> texts(paths@).contains(p) by {
            if before.contains(p) {
                let i = choose|i: int| 0 <= i < before.len() && before[i] == p;
                assert(texts(paths@)[i] == p);
            }
        }
        *self = RouteTable { handlers, paths };
    }

    /// The handler of `path`, if there is one.
    pub fn get(&self, path: &str) -> (r: Option<&F>)
        ensures
            match r {
                Some(handler) => self@.contains_key(path@) && *handler == self@[path@],
                None => !self@.contains_key(path@),
            },
    {
        self.handlers.get(path)
    }

    /// Whether `path` has a handler.
    pub fn contains_key(&self, path: &str) -> (r: bool)
        ensures
            r == self@.contains_key(path@),
    {
        self.handlers.contains_key(path)
    }

    /// The paths that have a handler, each once.
    pub fn keys(&self) -> (r: Vec<String>)
        ensures
            texts(r@).no_duplicates(),
            forall|p: Seq<char>| #[trigger] texts(r@).contains(p) <==> self@.contains_key(p),
    {
        proof {
            use_type_invariant(self);
        }
        let mut r: Vec<String> = Vec::new();
        let mut i: usize = 0;
        while i < self.paths.len()
            invariant
                i <= self.paths@.len(),
                texts(r@) == texts(self.paths@).take(i as int),
            decreases self.paths@.len() - i,
        {
            let ghost before = texts(r@);
            r.push(self.paths[i].clone());
            assert(texts(r@) =~= before.push(self.paths@[i as int]@));
            i += 1;
            assert(texts(r@) =~= texts(self.paths@).take(i as int));
        }
        assert(texts(self.paths@).take(i as int) =~= texts(self.paths@));
        r
    }

    /// A copy of the table as it is now, which later registrations do not change.
    pub fn snapshot(&self) -> (r: RouteTable<F>) where F: Clone
        ensures
            r@.dom() == self@.dom(),
            forall|p: Seq<char>| #[trigger]
                self@.contains_key(p) ==> cloned::<F>(self@[p], r@[p]),
    {
        let paths = self.keys();
        let mut r: RouteTable<F> = RouteTable::new();
        let mut i: usize = 0;
        while i < paths.len()
            invariant
                i <= paths@.len(),
                texts(paths@).no_duplicates(),
                forall|p: Seq<char>| #[trigger]
                    texts(paths@).contains(p) <==> self@.contains_key(p),
                forall|p: Seq<char>| #[trigger]
                    r@.contains_key(p) <==> texts(paths@).take(i as int).contains(p),
                forall|p: Seq<char>| #[trigger]
                    r@.contains_key(p) ==> cloned::<F>(self@[p], r@[p]),
            decreases paths@.len() - i,
        {
            let path = paths[i].as_str();
            let ghost done = texts(paths@).take(i as int);
            assert(texts(paths@)[i as int] == path@);
            assert(texts(paths@).contains(path@));
            match self.get(path) {
                Some(handler) => {
                    r.insert(path, handler.clone());
                },
                None => {
                    assert(false);
                },
            }
            i += 1;
            let ghost more = texts(paths@).take(i as int);
            assert(more =~= done.push(path@));
            assert forall|p: Seq<char>| #[trigger] r@.contains_key(p) <==> more.contains(p) by {
                if done.contains(p) {
                    let j = choose|j: int| 0 <= j < done.len() && done[j] == p;
                    assert(more[j] == p);
                }
                assert(more[i - 1] == path@);
            }
        }
        assert(texts(paths@).take(i as int) =~= texts(paths@));
        assert(r@.dom() =~= self@.dom());
        r
    }

    /// The paths that are served over HTTP, each once: those with a handler that
    /// start with a slash.
    pub fn served_paths(&self) -> (r: Vec<String>)
        ensures
            texts(r@).no_duplicates(),
            forall|p: Seq<char>| #[trigger]
                texts(r@).contains(p) <==> self@.contains_key(p) && is_served(p),
            forall|i: int| 0 <= i < r@.len() ==> #[trigger] r@[i]@.len() > 0 && r@[i]@[0] == '/',
    {
        let paths = self.keys();
        let ghost all = texts(paths@);
        let mut r: Vec<String> = Vec::new();
        let mut i: usize = 0;
        while i < paths.len()
            invariant
                i <= paths@.len(),
                all == texts(paths@),
                all.no_duplicates(),
                texts(r@).no_duplicates(),
                forall|p: Seq<char>| #[trigger]
                    texts(r@).contains(p) <==> all.take(i as int).contains(p) && is_served(p),
                forall|j: int|
                    0 <= j < r@.len() ==> #[trigger] r@[j]@.len() > 0 && r@[j]@[0] == '/',
            decreases paths@.len() - i,
        {
            let ghost before = texts(r@);
            let ghost done = all.take(i as int);
            let ghost path = paths@[i as int]@;
            assert(all[i as int] == path);
            if starts_with_slash(paths[i].as_str()) {
                assert(!done.contains(path)) by {
                    if done.contains(path) {
                        let j = choose|j: int| 0 <= j < done.len() && done[j] == path;
                        assert(all[j] == path);
                    }
                }
                assert(!before.contains(path));
                r.push(paths[i].clone());
                assert(texts(r@) =~= before.push(path));
            }
            i += 1;
            let ghost more = all.take(i as int);
            assert(more =~= done.push(path));
            assert forall|p: Seq<char>| #[trigger]
                texts(r@).contains(p) <==> more.contains(p) && is_served(p) by {
                if done.contains(p) {
                    let j = choose|j: int| 0 <= j < done.len() && done[j] == p;
                    assert(more[j] == p);
                }
                if before.contains(p) {
                    let j = choose|j: int| 0 <= j < before.len() && before[j] == p;
                    assert(texts(r@)[j] == p);
                }
                assert(more[i - 1] == path);
                if is_served(path) {
                    assert(texts(r@).last() == path);
                }
            }
        }
        assert(all.take(i as int) =~= all);
        r
    }
}

/// Whether `path` starts with a slash.
fn starts_with_slash(path: &str) -> (r: bool)
    ensures
        r == is_served(path@),
        r == (path@.len() > 0 && path@[0] == '/'),
{
    !path.is_empty() && path.get_char(0) == '/'
}

/// The cache builder is never served over HTTP: no path that is served is its
/// path.
pub proof fn law_cache_builder_is_not_served(path: Seq<char>)
    requires
        is_served(path),
    ensures
        path != create_cache_path(),
{
    reveal_strlit("__create_cache");
}

/// Every path behind a slash is served, however long it is, and no other path is.
pub proof fn law_served_is_behind_a_slash(rest: Seq<char>, path: Seq<char>)
    ensures
        is_served(seq!['/'] + rest),
        is_served(path) ==> path == seq!['/'] + path.skip(1),
{
    if is_served(path) {
        assert(path =~= seq!['/'] + path.skip(1));
    }
}

/// Characters are listed exactly where one of the texts has them.
proof fn lemma_named_by_text(s: Seq<String>, p: Seq<char>)
    ensures
        texts(s).contains(p) <==> exists|i: int| 0 <= i < s.len() && (#[trigger] s[i])@ == p,
{
    if texts(s).contains(p) {
        let i = choose|i: int| 0 <= i < texts(s).len() && texts(s)[i] == p;
        assert(s[i]@ == p);
    }
    if exists|i: int| 0 <= i < s.len() && (#[trigger] s[i])@ == p {
        let i = choose|i: int| 0 <= i < s.len() && (#[trigger] s[i])@ == p;
        assert(texts(s)[i] == p);
    }
}

/// A path is among the served ones exactly where a handler is found for it and its
/// first character is a slash; no path is served twice.
pub proof fn law_served_paths_have_a_handler_and_a_slash<F>(
    routes: RouteTable<F>,
    served: Vec<String>,
    path: &str,
    found: Option<&F>,
)
    requires
        call_ensures(RouteTable::<F>::served_paths, (&routes,), served),
        call_ensures(RouteTable::<F>::get, (&routes, path), found),
    ensures
        (exists|i: int| 0 <= i < served@.len() && (#[trigger] served@[i])@ == path@) <==> (found
            is Some && path@.len() > 0 && path@[0] == '/'),
        forall|i: int, j: int|
            0 <= i < j < served@.len() ==> (#[trigger] served@[i])@ != (#[trigger] served@[j])@,
{
    lemma_named_by_text(served@, path@);
    assert forall|i: int, j: int| 0 <= i < j < served@.len() implies (#[trigger] served@[i])@ != (
    #[trigger] served@[j])@ by {
        assert(texts(served@)[i] != texts(served@)[j]);
    }
}

/// A path is among the registered ones exactly where a handler is found for it; no
/// path is named twice.
pub proof fn law_keys_are_the_paths_with_a_handler<F>(
    routes: RouteTable<F>,
    keys: Vec<String>,
    path: &str,
    found: Option<&F>,
    known: bool,
)
    requires
        call_ensures(RouteTable::<F>::keys, (&routes,), keys),
        call_ensures(RouteTable::<F>::get, (&routes, path), found),
        call_ensures(RouteTable::<F>::contains_key, (&routes, path), known),
    ensures
        (exists|i: int| 0 <= i < keys@.len() && (#[trigger] keys@[i])@ == path@) <==> found is Some,
        known <==> found is Some,
        forall|i: int, j: int|
            0 <= i < j < keys@.len() ==> (#[trigger] keys@[i])@ != (#[trigger] keys@[j])@,
{
    lemma_named_by_text(keys@, path@);
    assert forall|i: int, j: int| 0 <= i < j < keys@.len() implies (#[trigger] keys@[i])@ != (
    #[trigger] keys@[j])@ by {
        assert(texts(keys@)[i] != texts(keys@)[j]);
    }
}

/// A new table has no handler for any path.
pub proof fn law_new_table_has_no_handler<F>(
    routes: RouteTable<F>,
    path: &str,
    found: Option<&F>,
)
    requires
        call_ensures(RouteTable::<F>::new, (), routes),
        call_ensures(RouteTable::<F>::get, (&routes, path), found),
    ensures
        found is None,
{
}

/// What was registered for a path is found for it, and registering leaves every
/// other path as it was.
pub proof fn law_registered_handler_is_found<F>(
    routes: &mut RouteTable<F>,
    path: &str,
    handler: F,
    asked: &str,
    before: Option<&F>,
    after: Option<&F>,
)
    requires
        call_ensures(RouteTable::<F>::get, (&*old(routes), asked), before),
        call_ensures(RouteTable::<F>::insert, (routes, path, handler), ()),
        call_ensures(RouteTable::<F>::get, (&*final(routes), asked), after),
    ensures
        asked@ == path@ ==> (after matches Some(h) && *h == handler),
        asked@ != path@ ==> (after is Some <==> before is Some),
        asked@ != path@ && after is Some ==> *(after->0) == *(before->0),
{
}

/// A snapshot has a handler for the same paths as the table, each a copy of the
/// handler that the table has.
pub proof fn law_snapshot_has_the_same_handlers<F: Clone>(
    routes: RouteTable<F>,
    copy: RouteTable<F>,
    path: &str,
    found: Option<&F>,
    kept: Option<&F>,
)
    requires
        call_ensures(RouteTable::<F>::snapshot, (&routes,), copy),
        call_ensures(RouteTable::<F>::get, (&routes, path), found),
        call_ensures(RouteTable::<F>::get, (&copy, path), kept),
    ensures
        kept is Some <==> found is Some,
        found is Some ==> cloned::<F>(*(found->0), *(kept->0)),
{
    assert(copy@.dom().contains(path@) <==> routes@.dom().contains(path@));
}

/// Any path can be asked for, and the paths of any table can be listed.
pub proof fn law_any_path_can_be_asked_for<F>(routes: RouteTable<F>, path: &str)
    ensures
        call_requires(RouteTable::<F>::get, (&routes, path)),
        call_requires(RouteTable::<F>::keys, (&routes,)),
        call_requires(RouteTable::<F>::served_paths, (&routes,)),
{
}

} // verus!
