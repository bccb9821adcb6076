//! The route table: which handler answers which path, and under which
//! content type. It is filled before the server runs and only read after.

use vstd::prelude::*;
use vstd::string::*;
use vstd::utf8::*;

verus! {

/// The content type of a route that names none, and of every static file.
pub const DEFAULT_TYPE: &'static str = "text/html; charset=utf-8";

/// One registered route.
pub struct Route<H> {
    /// The path that the route answers, matched exactly.
    pub url: &'static str,
    /// The content type declared for its responses.
    pub content_type: &'static str,
    /// What produces the body.
    pub handler: H,
}

/// The static root and the routes, shared by all connections.
pub struct Web<H> {
    path: &'static str,
    urls: Vec<Route<H>>,
}

/// Tells whether two texts are the same.
pub fn same_text(left: &str, right: &str) -> (same: bool)
    ensures
        same == (left@ == right@),
{
    let a = left.as_bytes();
    let b = right.as_bytes();
    if a.len() != b.len() {
        return false;
    }
    let mut i: usize = 0;
    while i < a.len()
        invariant
            i <= a.len(),
            a.len() == b.len(),
            a@ == encode_utf8(left@),
            b@ == encode_utf8(right@),
            forall|j: int| 0 <= j < i ==> a@[j] == b@[j],
        decreases a.len() - i,
    {
        if a[i] != b[i] {
            return false;
        }
        i += 1;
    }
    proof {
        assert(a@ =~= b@);
        encode_utf8_decode_utf8(left@);
        encode_utf8_decode_utf8(right@);
    }
    true
}

impl<H> Web<H> {
    /// No path is registered twice.
    pub closed spec fn wf(&self) -> bool {
        forall|i: int, j: int|
            0 <= i < j < self.urls.len() ==> (#[trigger] self.urls[i]).url@ != (
            #[trigger] self.urls[j]).url@
    }

    /// The directory under which static files are looked up.
    pub closed spec fn root(&self) -> Seq<char> {
        self.path@
    }

    /// The table: each registered path with its content type and handler.
    pub closed spec fn routes(&self) -> Map<Seq<char>, (Seq<char>, H)> {
        Map::new(
            |url: Seq<char>| self.holds(url),
            |url: Seq<char>|
                {
                    let i = self.index_of(url);
                    (self.urls[i].content_type@, self.urls[i].handler)
                },
        )
    }

    spec fn holds(&self, url: Seq<char>) -> bool {
        exists|i: int| 0 <= i < self.urls.len() && (#[trigger] self.urls[i]).url@ == url
    }

    spec fn index_of(&self, url: Seq<char>) -> int {
        choose|i: int| 0 <= i < self.urls.len() && (#[trigger] self.urls[i]).url@ == url
    }

    proof fn lemma_index_of(&self, i: int)
        requires
            self.wf(),
            0 <= i < self.urls.len(),
        ensures
            self.holds(self.urls[i].url@),
            self.index_of(self.urls[i].url@) == i,
    {
        let url = self.urls[i].url@;
        let j = self.index_of(url);
        assert(self.urls[i].url@ == url);
        assert(0 <= j < self.urls.len() && self.urls[j].url@ == url);
    }

    /// A table without routes over the static root `path`.
    pub fn new(path: &'static str) -> (web: Self)
        ensures
            web.wf(),
            web.root() == path@,
            web.routes() == Map::<Seq<char>, (Seq<char>, H)>::empty(),
    {
        let web = Web { path, urls: Vec::new() };
        assert(web.routes() =~= Map::<Seq<char>, (Seq<char>, H)>::empty());
        web
    }

    /// The static root.
    pub fn path(&self) -> (path: &'static str)
        ensures
            path@ == self.root(),
    {
        self.path
    }

    fn find(&self, url: &str) -> (found: Option<usize>)
        requires
            self.wf(),
        ensures
            match found {
                Some(i) => i < self.urls.len() && self.urls[i as int].url@ == url@,
                None => !self.holds(url@),
            },
    {
        let mut i: usize = 0;
        while i < self.urls.len()
            invariant
                i <= self.urls.len(),
                forall|j: int| 0 <= j < i ==> (#[trigger] self.urls[j]).url@ != url@,
            decreases self.urls.len() - i,
        {
            if same_text(self.urls[i].url, url) {
                return Some(i);
            }
            i += 1;
        }
        None
    }

    /// Registers `handler` for the path `url` under `content_type`; a
    /// route that path had before is replaced.
    pub fn insert(&mut self, url: &'static str, content_type: &'static str, handler: H)
        requires
            old(self).wf(),
        ensures
            final(self).wf(),
            final(self).root() == old(self).root(),
            final(self).routes() == old(self).routes().insert(url@, (content_type@, handler)),
    {
        let route = Route { url, content_type, handler };
        match self.find(url) {
            Some(i) => {
                self.urls.set(i, route);
                proof {
                    assert forall|k: Seq<char>| final(self).holds(k) == old(self).holds(
                        k,
                    ) by {
                        if old(self).holds(k) {
                            let j = old(self).index_of(k);
                            assert(self.urls[j].url@ == k);
                        }
                        if self.holds(k) {
                            let j = self.index_of(k);
                            assert(old(self).urls[j].url@ == k);
                        }
                    }
                    assert forall|k: Seq<char>| self.holds(k) implies #[trigger] self.routes()[k]
                        == old(self).routes().insert(url@, (content_type@, handler))[k] by {
                        let j = self.index_of(k);
                        if k == url@ {
                            self.lemma_index_of(i as int);
                        } else {
                            assert(old(self).urls[j].url@ == k);
                            old(self).lemma_index_of(j);
                        }
                    }
                    assert(old(self).holds(url@)) by {
                        assert(old(self).urls[i as int].url@ == url@);
                    }
                    assert(self.routes() =~= old(self).routes().insert(
                        url@,
                        (content_type@, handler),
                    ));
                }
            },
            None => {
                self.urls.push(route);
                proof {
                    let last = old(self).urls.len() as int;
                    assert forall|k: Seq<char>| self.holds(k) == (old(self).holds(k) || k
                        == url@) by {
                        if old(self).holds(k) {
                            let j = old(self).index_of(k);
                            assert(self.urls[j].url@ == k);
                        }
                        if k == url@ {
                            assert(self.urls[last].url@ == k);
                        }
                        if self.holds(k) {
                            let j = self.index_of(k);
                            if j < last {
                                assert(old(self).urls[j].url@ == k);
                            }
                        }
                    }
                    assert forall|k: Seq<char>| self.holds(k) implies #[trigger] self.routes()[k]
                        == old(self).routes().insert(url@, (content_type@, handler))[k] by {
                        let j = self.index_of(k);
                        if k == url@ {
                            self.lemma_index_of(last);
                        } else {
                            assert(old(self).urls[j].url@ == k);
                            old(self).lemma_index_of(j);
                        }
                    }
                    assert(self.routes() =~= old(self).routes().insert(
                        url@,
                        (content_type@, handler),
                    ));
                }
            },
        }
    }

    /// Looks up the route registered for exactly `path`.
    pub fn get(&self, path: &str) -> (route: Option<&Route<H>>)
        requires
            self.wf(),
        ensures
            match route {
                Some(route) => {
                    &&& route.url@ == path@
                    &&& self.routes().contains_key(path@)
                    &&& self.routes()[path@] == (route.content_type@, route.handler)
                },
                None => !self.routes().contains_key(path@),
            },
    {
        match self.find(path) {
            Some(i) => {
                proof {
                    self.lemma_index_of(i as int);
                }
                Some(&self.urls[i])
            },
            None => None,
        }
    }
}

} // verus!
