//! A FIFO cache of idle connections, owned by the caller and used from one task.
use vstd::prelude::*;
use std::collections::VecDeque;

verus! {

/// What `get` hands back: an idle connection, or the word to open a new one
/// with the pool's settings.
pub enum Acquire<C> {
    Reuse(C),
    Connect,
}

/// Taking from the idle queue: the oldest idle connection, if any, and what is left.
pub open spec fn acquire_spec<C>(idle: Seq<C>) -> (Option<C>, Seq<C>) {
    if idle.len() > 0 {
        (Some(idle[0]), idle.drop_first())
    } else {
        (None, idle)
    }
}

/// Returning a connection to the idle queue.
pub open spec fn release_spec<C>(idle: Seq<C>, c: C) -> Seq<C> {
    idle.push(c)
}

/// The connection settings and the idle connections.
pub struct Pool<C> {
    addr: String,
    user: String,
    password: Option<String>,
    database: Option<String>,
    idle: VecDeque<C>,
}

impl<C> Pool<C> {
    pub closed spec fn idle(&self) -> Seq<C> {
        self.idle@
    }

    pub closed spec fn settings(&self) -> (Seq<char>, Seq<char>, Option<Seq<char>>, Option<Seq<char>>) {
        (
            self.addr@,
            self.user@,
            match self.password { Some(p) => Some(p@), None => None },
            match self.database { Some(d) => Some(d@), None => None },
        )
    }

    pub fn new(addr: &str, user: &str, password: Option<&str>, database: Option<&str>) -> (r: Pool<C>)
        ensures
            r.idle() == Seq::<C>::empty(),
            r.settings() == (
                addr@,
                user@,
                match password { Some(p) => Some(p@), None => None::<Seq<char>> },
                match database { Some(d) => Some(d@), None => None::<Seq<char>> },
            ),
    {
        let password = match password {
            Some(p) => Some(p.to_owned()),
            None => None,
        };
        let database = match database {
            Some(d) => Some(d.to_owned()),
            None => None,
        };
        Pool { addr: addr.to_owned(), user: user.to_owned(), password, database, idle: VecDeque::new() }
    }

    /// What `get` does: the settings stay, the oldest idle connection is
    /// handed back and leaves the queue, or the answer is to open a new one.
    pub open spec fn get_post(before: Pool<C>, after: Pool<C>, r: Acquire<C>) -> bool {
        &&& after.settings() == before.settings()
        &&& after.idle() == acquire_spec(before.idle()).1
        &&& match acquire_spec(before.idle()).0 {
            Some(c) => r == Acquire::Reuse(c),
            None => r is Connect,
        }
    }

    /// What `put` does: the settings stay and the connection joins the queue.
    pub open spec fn put_post(before: Pool<C>, after: Pool<C>, c: C) -> bool {
        &&& after.settings() == before.settings()
        &&& after.idle() == release_spec(before.idle(), c)
    }

    /// On a pool with no idle connection, `get` says to open a new one; once
    /// that connection `c` is given back with `put`, the next `get` hands back
    /// `c` itself, so no new connection is opened, and the pool is empty again.
    pub proof fn lemma_get_put_get(p0: Pool<C>, p1: Pool<C>, a1: Acquire<C>, c: C, p2: Pool<C>, p3: Pool<C>, a2: Acquire<C>)
        requires
            p0.idle().len() == 0,
            Self::get_post(p0, p1, a1),
            Self::put_post(p1, p2, c),
            Self::get_post(p2, p3, a2),
        ensures
            a1 is Connect,
            a2 == Acquire::Reuse(c),
            p3.idle().len() == 0,
            p3.settings() == p0.settings(),
    {
        assert(p2.idle() =~= seq![c]);
    }

    /// Takes the oldest idle connection, or says to open a new one.
    pub fn get(&mut self) -> (r: Acquire<C>)
        ensures
            Self::get_post(*old(self), *final(self), r),
    {
        match self.idle.pop_front() {
            Some(c) => Acquire::Reuse(c),
            None => Acquire::Connect,
        }
    }

    /// Returns a connection to the pool, unconditionally.
    pub fn put(&mut self, c: C)
        ensures
            Self::put_post(*old(self), *final(self), c),
    {
        self.idle.push_back(c);
    }

    pub fn addr(&self) -> (r: &str)
        ensures
            r@ == self.settings().0,
    {
        self.addr.as_str()
    }

    pub fn user(&self) -> (r: &str)
        ensures
            r@ == self.settings().1,
    {
        self.user.as_str()
    }

    pub fn password(&self) -> (r: Option<&str>)
        ensures
            match self.settings().2 {
                Some(p) => r matches Some(x) && x@ == p,
                None => r is None,
            },
    {
        match &self.password {
            Some(p) => Some(p.as_str()),
            None => None,
        }
    }

    pub fn database(&self) -> (r: Option<&str>)
        ensures
            match self.settings().3 {
                Some(d) => r matches Some(x) && x@ == d,
                None => r is None,
            },
    {
        match &self.database {
            Some(d) => Some(d.as_str()),
            None => None,
        }
    }
}

} // verus!
