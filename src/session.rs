//! Sessions (which client each connection speaks for) and the credential
//! store.

use crate::text::{copy_string, same_string};
use vstd::prelude::*;

verus! {

/// One live session: a connection and the client it speaks for.
pub struct SessionView {
    pub conn: u32,
    pub client: Seq<char>,
}

/// Whether some session speaks for `client`.
pub open spec fn has_client(v: Seq<SessionView>, client: Seq<char>) -> bool {
    exists|i: int| 0 <= i < v.len() && #[trigger] v[i].client == client
}

/// The sessions other than those of connection `conn` or client `client`.
pub open spec fn sessions_without(v: Seq<SessionView>, conn: u32, client: Seq<char>) -> Seq<SessionView>
    decreases v.len(),
{
    if v.len() == 0 {
        Seq::empty()
    } else if v.last().conn == conn || v.last().client == client {
        sessions_without(v.drop_last(), conn, client)
    } else {
        sessions_without(v.drop_last(), conn, client).push(v.last())
    }
}

/// What `sessions_without` leaves holds no entry of `conn` or `client`.
pub proof fn lemma_sessions_without(v: Seq<SessionView>, conn: u32, client: Seq<char>)
    ensures
        forall|i: int|
            0 <= i < sessions_without(v, conn, client).len() ==> #[trigger] sessions_without(
                v,
                conn,
                client,
            )[i].conn != conn && sessions_without(v, conn, client)[i].client != client,
    decreases v.len(),
{
    if v.len() > 0 {
        lemma_sessions_without(v.drop_last(), conn, client);
        let p = sessions_without(v.drop_last(), conn, client);
        let r = sessions_without(v, conn, client);
        assert forall|i: int| 0 <= i < r.len() implies #[trigger] r[i].conn != conn && r[i].client != client by {
            if i < p.len() {
                assert(r[i] == p[i]);
            }
        }
    }
}

/// After `conn` registers for `client`, the session of `conn` is the only
/// one of that connection and the only one of that client.
pub open spec fn sole_session(v: Seq<SessionView>, conn: u32, client: Seq<char>) -> bool {
    &&& v.len() > 0
    &&& v.last() == (SessionView { conn, client })
    &&& forall|i: int| 0 <= i < v.len() - 1 ==> #[trigger] v[i].conn != conn && v[i].client != client
}

/// The session table: connection id to client identifier.
pub struct Sessions {
    conns: Vec<u32>,
    clients: Vec<String>,
}

impl View for Sessions {
    type V = Seq<SessionView>;

    closed spec fn view(&self) -> Seq<SessionView> {
        Seq::new(self.conns@.len(), |i: int| SessionView { conn: self.conns@[i], client: self.clients@[i]@ })
    }
}

impl Sessions {
    /// Well formed: the connection and client columns have the same length.
    /// A registration leaves one session for its connection and its client
    /// (see `sole_session`).
    pub closed spec fn wf(&self) -> bool {
        self.conns@.len() == self.clients@.len()
    }

    /// No sessions.
    pub fn new() -> (r: Self)
        ensures
            r@ == Seq::<SessionView>::empty(),
            r.wf(),
    {
        let r = Sessions { conns: Vec::new(), clients: Vec::new() };
        assert(r@ =~= Seq::<SessionView>::empty());
        r
    }

    /// The client that connection `conn` speaks for.
    pub fn client_of(&self, conn: u32) -> (r: Option<String>)
        requires
            self.wf(),
        ensures
            match r {
                Some(c) => exists|i: int| 0 <= i < self@.len() && self@[i] == (SessionView { conn, client: c@ }),
                None => forall|i: int| 0 <= i < self@.len() ==> #[trigger] self@[i].conn != conn,
            },
    {
        let mut i: usize = 0;
        while i < self.conns.len()
            invariant
                self.wf(),
                i <= self@.len(),
                forall|k: int| 0 <= k < i ==> #[trigger] self@[k].conn != conn,
            decreases self.conns.len() - i,
        {
            if self.conns[i] == conn {
                let c = copy_string(&self.clients[i]);
                assert(self@[i as int] == (SessionView { conn, client: c@ }));
                return Some(c);
            }
            i = i + 1;
        }
        None
    }

    /// Whether some session speaks for `client`.
    pub fn contains_client(&self, client: &String) -> (r: bool)
        requires
            self.wf(),
        ensures
            r == has_client(self@, client@),
    {
        let mut i: usize = 0;
        while i < self.clients.len()
            invariant
                self.wf(),
                i <= self@.len(),
                forall|k: int| 0 <= k < i ==> #[trigger] self@[k].client != client@,
            decreases self.clients.len() - i,
        {
            if same_string(&self.clients[i], client) {
                assert(self@[i as int].client == client@);
                return true;
            }
            i = i + 1;
        }
        false
    }

    /// Records that `conn` speaks for `client`, dropping any other session
    /// of that connection or that client.
    pub fn register(&mut self, conn: u32, client: &String)
        requires
            old(self).wf(),
        ensures
            final(self).wf(),
            final(self)@ == sessions_without(old(self)@, conn, client@).push(SessionView { conn, client: client@ }),
            sole_session(final(self)@, conn, client@),
    {
        let ghost old_v = self@;
        let mut conns: Vec<u32> = Vec::new();
        let mut clients: Vec<String> = Vec::new();
        let mut i: usize = 0;
        while i < self.conns.len()
            invariant
                self.wf(),
                self@ == old_v,
                i <= old_v.len(),
                old_v.len() == self.conns@.len(),
                conns@.len() == clients@.len(),
                Seq::new(conns@.len(), |k: int| SessionView { conn: conns@[k], client: clients@[k]@ })
                    == sessions_without(old_v.take(i as int), conn, client@),
            decreases self.conns.len() - i,
        {
            let ghost before = Seq::new(conns@.len(), |k: int| SessionView { conn: conns@[k], client: clients@[k]@ });
            proof {
                assert(old_v.take(i as int + 1).drop_last() =~= old_v.take(i as int));
                assert(old_v.take(i as int + 1).last() == old_v[i as int]);
            }
            if self.conns[i] != conn && !same_string(&self.clients[i], client) {
                conns.push(self.conns[i]);
                clients.push(copy_string(&self.clients[i]));
                assert(Seq::new(conns@.len(), |k: int| SessionView { conn: conns@[k], client: clients@[k]@ })
                    =~= before.push(old_v[i as int]));
            }
            i = i + 1;
        }
        assert(old_v.take(old_v.len() as int) =~= old_v);
        let ghost kept = Seq::new(conns@.len(), |k: int| SessionView { conn: conns@[k], client: clients@[k]@ });
        conns.push(conn);
        clients.push(copy_string(client));
        self.conns = conns;
        self.clients = clients;
        assert(self@ =~= kept.push(SessionView { conn, client: client@ }));
        proof {
            lemma_sessions_without(old_v, conn, client@);
            let v = self@;
            assert forall|i: int| 0 <= i < v.len() - 1 implies #[trigger] v[i].conn != conn && v[i].client != client@ by {
                assert(v[i] == kept[i]);
            }
        }
    }

    /// The connection ids, in order.
    pub fn conn_ids(&self) -> (r: Vec<u32>)
        requires
            self.wf(),
        ensures
            r@.len() == self@.len(),
            forall|i: int| 0 <= i < r@.len() ==> r@[i] == #[trigger] self@[i].conn,
    {
        let mut r: Vec<u32> = Vec::new();
        let mut i: usize = 0;
        while i < self.conns.len()
            invariant
                self.wf(),
                i <= self@.len(),
                r@.len() == i,
                forall|k: int| 0 <= k < i ==> r@[k] == #[trigger] self@[k].conn,
            decreases self.conns.len() - i,
        {
            r.push(self.conns[i]);
            i = i + 1;
        }
        r
    }
}

/// The password stored for a user name, if any.
pub open spec fn password_of(v: Seq<(Seq<char>, Seq<char>)>, username: Seq<char>) -> Option<Seq<char>>
    decreases v.len(),
{
    if v.len() == 0 {
        None
    } else if v[0].0 == username {
        Some(v[0].1)
    } else {
        password_of(v.drop_first(), username)
    }
}

/// The credential store: user names and their passwords.
pub struct Credentials {
    names: Vec<String>,
    passwords: Vec<String>,
}

impl View for Credentials {
    type V = Seq<(Seq<char>, Seq<char>)>;

    closed spec fn view(&self) -> Seq<(Seq<char>, Seq<char>)> {
        Seq::new(self.names@.len(), |i: int| (self.names@[i]@, self.passwords@[i]@))
    }
}

impl Credentials {
    /// Well formed: one password per name.
    pub closed spec fn wf(&self) -> bool {
        self.names@.len() == self.passwords@.len()
    }

    /// No credentials.
    pub fn new() -> (r: Self)
        ensures
            r@ == Seq::<(Seq<char>, Seq<char>)>::empty(),
            r.wf(),
    {
        let r = Credentials { names: Vec::new(), passwords: Vec::new() };
        assert(r@ =~= Seq::<(Seq<char>, Seq<char>)>::empty());
        r
    }

    /// Adds a user; an earlier entry of the same name keeps precedence.
    pub fn add(&mut self, username: String, password: String)
        requires
            old(self).wf(),
        ensures
            final(self).wf(),
            final(self)@ == old(self)@.push((username@, password@)),
    {
        let ghost old_v = self@;
        self.names.push(username);
        self.passwords.push(password);
        assert(self@ =~= old_v.push((self.names@.last()@, self.passwords@.last()@)));
    }

    /// The password stored for `username`, if any.
    pub fn password_for(&self, username: &String) -> (r: Option<String>)
        requires
            self.wf(),
        ensures
            match r {
                Some(p) => password_of(self@, username@) == Some(p@),
                None => password_of(self@, username@) is None,
            },
    {
        let ghost v = self@;
        assert(v.skip(0) =~= v);
        let mut i: usize = 0;
        while i < self.names.len()
            invariant
                self.wf(),
                v == self@,
                i <= v.len(),
                password_of(v, username@) == password_of(v.skip(i as int), username@),
            decreases self.names.len() - i,
        {
            assert(v.skip(i as int)[0] == v[i as int]);
            assert(v.skip(i as int).drop_first() =~= v.skip(i as int + 1));
            if same_string(&self.names[i], username) {
                return Some(copy_string(&self.passwords[i]));
            }
            i = i + 1;
        }
        None
    }
}

} // verus!
