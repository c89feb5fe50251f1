//! The table of handlers, by method and path.

use crate::http::Method;
use crate::text::{same, to_chars};
use vstd::prelude::*;

verus! {

/// One entry of the routing table.
struct Route<H> {
    method: Method,
    path: Vec<char>,
    handler: H,
}

impl<H> Route<H> {
    /// The method and path that the entry is found by.
    spec fn key(self) -> (Method, Seq<char>) {
        (self.method, self.path@)
    }
}

/// No two entries have the same method and path.
spec fn distinct<H>(routes: Seq<Route<H>>) -> bool {
    forall|i: int, j: int| 0 <= i < j < routes.len() ==> routes[i].key() != routes[j].key()
}

/// Some entry has the key `k`.
spec fn holds<H>(routes: Seq<Route<H>>, k: (Method, Seq<char>)) -> bool {
    exists|i: int| 0 <= i < routes.len() && routes[i].key() == k
}

/// The place of an entry with the key `k`.
spec fn place<H>(routes: Seq<Route<H>>, k: (Method, Seq<char>)) -> int {
    choose|i: int| 0 <= i < routes.len() && routes[i].key() == k
}

/// The handlers of the entries, by key.
spec fn table<H>(routes: Seq<Route<H>>) -> Map<(Method, Seq<char>), H> {
    Map::new(
        |k: (Method, Seq<char>)| holds(routes, k),
        |k: (Method, Seq<char>)| routes[place(routes, k)].handler,
    )
}

/// Where keys are distinct, the entry at `i` is the one its key is found at.
proof fn lemma_place<H>(routes: Seq<Route<H>>, i: int)
    requires
        distinct(routes),
        0 <= i < routes.len(),
    ensures
        holds(routes, routes[i].key()),
        place(routes, routes[i].key()) == i,
{
    let p = place(routes, routes[i].key());
    if p < i {
        assert(routes[p].key() != routes[i].key());
    } else if i < p {
        assert(routes[i].key() != routes[p].key());
    }
}

/// Adding an entry with a new key adds its handler to the table.
proof fn lemma_table_push<H>(routes: Seq<Route<H>>, r: Route<H>)
    requires
        distinct(routes),
        !holds(routes, r.key()),
    ensures
        distinct(routes.push(r)),
        table(routes.push(r)) == table(routes).insert(r.key(), r.handler),
{
    let after = routes.push(r);
    let n = routes.len() as int;
    assert forall|i: int, j: int| 0 <= i < j < after.len() implies after[i].key()
        != after[j].key() by {
        if j == n {
            assert(routes[i].key() != r.key());
        }
    }
    assert forall|k: (Method, Seq<char>)|
        holds(after, k) == (holds(routes, k) || k == r.key()) by {
        if holds(routes, k) {
            assert(after[place(routes, k)].key() == k);
        }
        if holds(after, k) && k != r.key() {
            assert(routes[place(after, k)].key() == k);
        }
        assert(after[n].key() == r.key());
    }
    assert forall|k: (Method, Seq<char>)| holds(after, k) implies after[place(after, k)].handler
        == table(routes).insert(r.key(), r.handler)[k] by {
        let a = place(after, k);
        lemma_place(after, a);
        if k == r.key() {
            lemma_place(after, n);
        } else {
            lemma_place(routes, a);
        }
    }
    assert(table(after) =~= table(routes).insert(r.key(), r.handler));
}

/// Replacing an entry by one with the same key replaces its handler in the
/// table.
proof fn lemma_table_update<H>(routes: Seq<Route<H>>, i: int, r: Route<H>)
    requires
        distinct(routes),
        0 <= i < routes.len(),
        routes[i].key() == r.key(),
    ensures
        distinct(routes.update(i, r)),
        table(routes.update(i, r)) == table(routes).insert(r.key(), r.handler),
{
    let after = routes.update(i, r);
    assert forall|a: int, b: int| 0 <= a < b < after.len() implies after[a].key()
        != after[b].key() by {
        assert(routes[a].key() != routes[b].key());
    }
    assert forall|k: (Method, Seq<char>)|
        holds(after, k) == (holds(routes, k) || k == r.key()) by {
        if holds(routes, k) {
            assert(after[place(routes, k)].key() == k);
        }
        if holds(after, k) {
            assert(routes[place(after, k)].key() == k);
        }
        assert(after[i].key() == r.key());
    }
    assert forall|k: (Method, Seq<char>)| holds(after, k) implies after[place(after, k)].handler
        == table(routes).insert(r.key(), r.handler)[k] by {
        let a = place(after, k);
        lemma_place(after, a);
        if k == r.key() {
            lemma_place(after, i);
        } else {
            lemma_place(routes, a);
        }
    }
    assert(table(after) =~= table(routes).insert(r.key(), r.handler));
}

/// The table of handlers, by method and path. It holds at most one handler
/// for each pair; registering a pair again replaces its handler. Paths are
/// compared as they are written: nothing is sanitized here.
pub struct Router<H> {
    routes: Vec<Route<H>>,
}

impl<H> View for Router<H> {
    type V = Map<(Method, Seq<char>), H>;

    closed spec fn view(&self) -> Map<(Method, Seq<char>), H> {
        table(self.routes@)
    }
}

impl<H> Router<H> {
    #[verifier::type_invariant]
    spec fn well_formed(self) -> bool {
        distinct(self.routes@)
    }

    /// An empty table.
    pub fn new() -> (r: Self)
        ensures
            r@ == Map::<(Method, Seq<char>), H>::empty(),
    {
        let r = Router { routes: Vec::new() };
        assert(r@ =~= Map::<(Method, Seq<char>), H>::empty());
        r
    }

    /// The place of the entry for `method` and `path`, if there is one.
    fn position(&self, method: Method, path: &[char]) -> (r: Option<usize>)
        ensures
            match r {
                Some(i) => i < self.routes.len() && self.routes[i as int].key() == (method, path@),
                None => !holds(self.routes@, (method, path@)),
            },
    {
        let mut i: usize = 0;
        while i < self.routes.len()
            invariant
                i <= self.routes.len(),
                forall|j: int| 0 <= j < i ==> self.routes[j].key() != (method, path@),
            decreases self.routes.len() - i,
        {
            if self.routes[i].method == method && same(self.routes[i].path.as_slice(), path) {
                return Some(i);
            }
            i += 1;
        }
        None
    }

    /// Sets the handler for `method` and `path`. A handler registered before
    /// for the same pair is dropped: the last registration wins.
    pub fn register(&mut self, method: Method, path: String, handler: H)
        ensures
            final(self)@ == old(self)@.insert((method, path@), handler),
    {
        proof {
            use_type_invariant(&*self);
        }
        let chars = to_chars(path.as_str());
        let found = self.position(method, chars.as_slice());
        let route = Route { method, path: chars, handler };
        let mut routes: Vec<Route<H>> = Vec::new();
        std::mem::swap(&mut self.routes, &mut routes);
        match found {
            Some(i) => {
                proof {
                    lemma_table_update(routes@, i as int, route);
                }
                routes.set(i, route);
            },
            None => {
                proof {
                    lemma_table_push(routes@, route);
                }
                routes.push(route);
            },
        }
        self.routes = routes;
    }

    /// The handler for `method` and `path`, if one is registered.
    pub fn lookup(&self, method: Method, path: &str) -> (r: Option<&H>)
        ensures
            match r {
                Some(h) => self@.contains_key((method, path@)) && *h == self@[(method, path@)],
                None => !self@.contains_key((method, path@)),
            },
    {
        proof {
            use_type_invariant(self);
        }
        let chars = to_chars(path);
        match self.position(method, chars.as_slice()) {
            Some(i) => {
                proof {
                    lemma_place(self.routes@, i as int);
                }
                Some(&self.routes[i].handler)
            },
            None => None,
        }
    }
}

/// After a handler is registered for a method and a path, a lookup of that
/// pair finds it, and a lookup of any other pair finds what it found before:
/// nothing, where nothing was registered for it.
pub proof fn lemma_lookup_after_register<H>(
    before: Map<(Method, Seq<char>), H>,
    method: Method,
    path: Seq<char>,
    handler: H,
    other_method: Method,
    other_path: Seq<char>,
)
    ensures
        ({
            let after = before.insert((method, path), handler);
            let other = (other_method, other_path);
            &&& after.contains_key((method, path))
            &&& after[(method, path)] == handler
            &&& other != (method, path) ==> after.contains_key(other) == before.contains_key(other)
            &&& other != (method, path) && before.contains_key(other) ==> after[other]
                == before[other]
        }),
{
}

} // verus!
