//! The server as a whole: the route table under construction, the workers'
//! counters, and the acceptor that hands each new connection to a worker.

use crate::thread::{dispatch, least_busy, least_loaded, loads, Message, Thread};
use crate::web::{Web, DEFAULT_TYPE};
use vstd::prelude::*;

verus! {

/// The number of workers.
pub const WORKERS: usize = 4;

/// What one non-blocking accept on the listening socket reported.
pub enum Accept<J> {
    /// A connection came in; this is the job that will serve it.
    Connection(J),
    /// No connection is pending.
    WouldBlock,
    /// Any other error of the listening socket.
    Failed,
}

/// What the acceptor does next.
pub enum Accepted<J> {
    /// Send this message to the worker of this index, then accept again at
    /// once: more connections may be pending.
    Dispatch(usize, Message<J>),
    /// Register the task's waker on the listener's binding and suspend.
    Pending,
    /// The listening socket failed: the server cannot go on.
    Failed,
}

/// A webserver.
pub struct WebServer<H> {
    web: Web<H>,
    threads: Vec<Thread>,
}

impl<H> WebServer<H> {
    /// The route table is well-formed and the pool has a worker.
    pub closed spec fn wf(&self) -> bool {
        self.web.wf() && self.threads.len() > 0
    }

    /// The directory under which static files are looked up.
    pub closed spec fn root(&self) -> Seq<char> {
        self.web.root()
    }

    /// The route table: each registered path with its content type and
    /// handler.
    pub closed spec fn routes(&self) -> Map<Seq<char>, (Seq<char>, H)> {
        self.web.routes()
    }

    /// The task counters, worker by worker.
    pub closed spec fn loads(&self) -> Seq<nat> {
        loads(self.threads@)
    }

    /// Creates a webserver over the static resources below `path`, with no
    /// routes and with `WORKERS` idle workers.
    pub fn with_resources(path: &'static str) -> (server: Self)
        ensures
            server.wf(),
            server.root() == path@,
            server.routes() == Map::<Seq<char>, (Seq<char>, H)>::empty(),
            server.loads() == Seq::new(WORKERS as nat, |i: int| 0nat),
    {
        let mut threads: Vec<Thread> = Vec::new();
        for count in 0..WORKERS
            invariant
                threads.len() == count,
                forall|i: int| 0 <= i < threads.len() ==> (#[trigger] threads[i])@ == 0,
        {
            threads.push(Thread::new());
        }
        assert(loads(threads@) =~= Seq::new(WORKERS as nat, |i: int| 0nat));
        WebServer { web: Web::new(path), threads }
    }

    /// Adds a handler for the path `url`, under the default content type.
    pub fn url(self, url: &'static str, func: H) -> (server: Self)
        requires
            self.wf(),
        ensures
            server.wf(),
            server.root() == self.root(),
            server.loads() == self.loads(),
            server.routes() == self.routes().insert(url@, (DEFAULT_TYPE@, func)),
    {
        self.url_with_type(url, func, DEFAULT_TYPE)
    }

    /// Adds a handler for the path `url`, under `content_type`.
    pub fn url_with_type(
        self,
        url: &'static str,
        func: H,
        content_type: &'static str,
    ) -> (server: Self)
        requires
            self.wf(),
        ensures
            server.wf(),
            server.root() == self.root(),
            server.loads() == self.loads(),
            server.routes() == self.routes().insert(url@, (content_type@, func)),
    {
        let mut server = self;
        server.web.insert(url, content_type, func);
        server
    }

    /// The static root and the routes, for the connections to read.
    pub fn web(&self) -> (web: &Web<H>)
        requires
            self.wf(),
        ensures
            web.wf(),
            web.root() == self.root(),
            web.routes() == self.routes(),
    {
        &self.web
    }

    /// The workers' records.
    pub fn threads(&self) -> (threads: &Vec<Thread>)
        requires
            self.wf(),
        ensures
            threads.len() > 0,
            loads(threads@) == self.loads(),
    {
        &self.threads
    }

    /// Takes in what one accept reported.
    ///
    /// A new connection goes to the worker whose counter is the minimum, the
    /// first such worker where several are level; that counter goes up by
    /// one, and the job travels in a `Message::NewJob`.
    pub fn poll<J>(&mut self, accept: Accept<J>) -> (accepted: Accepted<J>)
        requires
            old(self).wf(),
            accept is Connection ==> old(self).loads()[least_loaded(old(self).loads())]
                < usize::MAX,
        ensures
            final(self).wf(),
            final(self).root() == old(self).root(),
            final(self).routes() == old(self).routes(),
            match accept {
                Accept::Connection(job) => {
                    &&& accepted == Accepted::Dispatch(
                        least_loaded(old(self).loads()) as usize,
                        Message::NewJob(job),
                    )
                    &&& final(self).loads() == dispatch(old(self).loads())
                },
                Accept::WouldBlock => {
                    &&& accepted == Accepted::<J>::Pending
                    &&& final(self).loads() == old(self).loads()
                },
                Accept::Failed => {
                    &&& accepted == Accepted::<J>::Failed
                    &&& final(self).loads() == old(self).loads()
                },
            },
    {
        match accept {
            Accept::Connection(job) => {
                let thread_id = least_busy(&self.threads);
                let message = self.threads[thread_id].send(job);
                assert(loads(self.threads@) =~= dispatch(loads(old(self).threads@)));
                Accepted::Dispatch(thread_id, message)
            },
            Accept::WouldBlock => Accepted::Pending,
            Accept::Failed => Accepted::Failed,
        }
    }

    /// The record of the worker `id`, for that worker's loop to count its
    /// completed tasks on.
    pub fn thread(&mut self, id: usize) -> (thread: &mut Thread)
        requires
            old(self).wf(),
            id < old(self).loads().len(),
        ensures
            thread@ == old(self).loads()[id as int],
            final(self).wf(),
            final(self).root() == old(self).root(),
            final(self).routes() == old(self).routes(),
            final(self).loads() == old(self).loads().update(id as int, final(thread)@),
    {
        &mut self.threads[id]
    }
}

} // verus!
