//! All connections.

use vstd::prelude::*;

use crate::connection::{Connection, ConnectionState};
use crate::window::{Window, WindowState};

verus! {

/// The connections, in the order in which they were added.
pub struct ConnectionManager {
    pub connections: Vec<Connection>,
}

/// The connections and their windows.
#[verifier::ext_equal]
pub struct ManagerState {
    pub connections: Seq<ConnectionState>,
}

/// What a list of connections holds.
pub open spec fn connections_view(connections: Seq<Connection>) -> Seq<ConnectionState> {
    connections.map_values(|c: Connection| c@)
}

/// The windows of a connection, each with the number of the connection.
pub open spec fn tagged(conn: usize, ids: Seq<usize>) -> Seq<(usize, usize)> {
    ids.map_values(|id: usize| (conn, id))
}

/// The windows of the first `n` connections, by connection and then in the order in
/// which they were opened.
pub open spec fn flattened(connections: Seq<ConnectionState>, n: int) -> Seq<(usize, usize)>
    decreases n,
{
    if n <= 0 {
        Seq::empty()
    } else {
        flattened(connections, n - 1) + tagged((n - 1) as usize, connections[n - 1].ids())
    }
}

impl View for ConnectionManager {
    type V = ManagerState;

    open spec fn view(&self) -> ManagerState {
        ManagerState { connections: connections_view(self.connections@) }
    }
}

impl ManagerState {
    pub open spec fn wf(self) -> bool {
        &&& self.connections.len() <= usize::MAX
        &&& forall|i: int|
            0 <= i < self.connections.len() ==> (#[trigger] self.connections[i]).wf()
    }

    /// A window of a connection.
    pub open spec fn window(self, conn: int, id: usize) -> Option<WindowState> {
        if 0 <= conn < self.connections.len() {
            self.connections[conn].window(id)
        } else {
            None
        }
    }

    /// With a connection replaced; without such a connection, as it is.
    pub open spec fn with_connection(self, conn: int, c: ConnectionState) -> ManagerState {
        if 0 <= conn < self.connections.len() {
            ManagerState { connections: self.connections.update(conn, c) }
        } else {
            self
        }
    }

    /// With a window replaced; without such a window, as it is.
    pub open spec fn with_window(self, conn: int, id: usize, w: WindowState) -> ManagerState {
        if 0 <= conn < self.connections.len() {
            self.with_connection(conn, self.connections[conn].with_window(id, w))
        } else {
            self
        }
    }

    /// With every screen in another size.
    pub open spec fn resized(self, cols: int, rows: int) -> ManagerState {
        ManagerState {
            connections: self.connections.map_values(
                |c: ConnectionState| c.resized(cols, rows),
            ),
        }
    }

    /// With a limit set to every history.
    pub open spec fn limited(self, n: int) -> ManagerState {
        ManagerState { connections: self.connections.map_values(|c: ConnectionState| c.limited(n)) }
    }

    /// With a window of a connection closed.
    pub open spec fn without(self, conn: int, id: usize) -> ManagerState {
        if 0 <= conn < self.connections.len() {
            self.with_connection(conn, self.connections[conn].closed(id))
        } else {
            self
        }
    }

    /// All windows, by connection and then in the order in which they were opened.
    pub open spec fn all(self) -> Seq<(usize, usize)> {
        flattened(self.connections, self.connections.len() as int)
    }
}

/// Where the identifiers are the same, the windows are.
pub proof fn lemma_same_ids(a: ManagerState, b: ManagerState, n: int)
    requires
        0 <= n <= a.connections.len(),
        a.connections.len() == b.connections.len(),
        forall|i: int|
            0 <= i < n ==> (#[trigger] b.connections[i]).ids() == a.connections[i].ids(),
    ensures
        flattened(a.connections, n) == flattened(b.connections, n),
    decreases n,
{
    if n > 0 {
        lemma_same_ids(a, b, n - 1);
        assert(b.connections[n - 1].ids() == a.connections[n - 1].ids());
    }
}

/// A window that is there is in order and has the identifier that it is found by.
pub proof fn lemma_window(m: ManagerState, conn: int, id: usize)
    requires
        m.wf(),
    ensures
        m.window(conn, id) matches Some(w) ==> w.wf() && w.id == id,
{
    if 0 <= conn < m.connections.len() && m.connections[conn].has(id) {
        let c = m.connections[conn];
        assert(c.is_at(id, c.place(id)));
    }
}

/// Where a window is replaced by one with the same identifier, everything stays in
/// order, the list of windows stays the same, and so does every other window.
pub proof fn lemma_with_window(m: ManagerState, conn: int, id: usize, w: WindowState)
    requires
        m.wf(),
        w.wf(),
        w.id == id,
    ensures
        m.with_window(conn, id, w).wf(),
        m.with_window(conn, id, w).all() == m.all(),
        m.window(conn, id) is Some ==> m.with_window(conn, id, w).window(conn, id) == Some(w),
        forall|c: int, i: usize|
            c != conn || i != id ==> #[trigger] m.with_window(conn, id, w).window(c, i)
                == m.window(c, i),
        m.with_window(conn, id, w).connections.len() == m.connections.len(),
{
    let d = m.with_window(conn, id, w);
    if 0 <= conn < m.connections.len() {
        crate::connection::lemma_with_window(m.connections[conn], id, w);
        assert forall|i: int| 0 <= i < d.connections.len() implies (
        #[trigger] d.connections[i]).ids() == m.connections[i].ids() by {}
        lemma_same_ids(m, d, m.connections.len() as int);
    }
}

impl ConnectionManager {
    pub open spec fn wf(&self) -> bool {
        self@.wf()
    }

    pub fn new() -> (m: ConnectionManager)
        ensures
            m.wf(),
            m@.connections == Seq::<ConnectionState>::empty(),
    {
        let m = ConnectionManager { connections: Vec::new() };
        assert(m@.connections =~= Seq::<ConnectionState>::empty());
        m
    }

    /// Adds a connection and gives its number.
    pub fn add(&mut self, conn: Connection) -> (idx: usize)
        requires
            old(self).wf(),
            conn.wf(),
        ensures
            final(self).wf(),
            final(self)@.connections == old(self)@.connections.push(conn@),
            idx == old(self)@.connections.len(),
    {
        self.connections.push(conn);
        assert(self@.connections =~= old(self)@.connections.push(conn@));
        self.connections.len() - 1
    }

    /// The connection with a number.
    pub fn connection(&self, idx: usize) -> (conn: Option<&Connection>)
        requires
            self.wf(),
        ensures
            match conn {
                Some(c) => {
                    &&& idx < self@.connections.len()
                    &&& c@ == self@.connections[idx as int]
                    &&& c.wf()
                },
                None => idx >= self@.connections.len(),
            },
    {
        if idx < self.connections.len() {
            assert(self@.connections[idx as int] == self.connections@[idx as int]@);
            Some(&self.connections[idx])
        } else {
            None
        }
    }

    /// The connection with a number, to be changed.
    pub fn connection_mut(&mut self, idx: usize) -> (conn: Option<&mut Connection>)
        requires
            old(self).wf(),
        ensures
            match conn {
                Some(c) => {
                    &&& idx < old(self)@.connections.len()
                    &&& (*c)@ == old(self)@.connections[idx as int]
                    &&& (*c).wf()
                    &&& final(self)@ == old(self)@.with_connection(idx as int, (*final(c))@)
                    &&& (*final(c)).wf() ==> final(self).wf()
                },
                None => idx >= old(self)@.connections.len() && *final(self) == *old(self),
            },
    {
        if idx < self.connections.len() {
            proof {
                assert(self@.connections[idx as int] == self.connections@[idx as int]@);
                assert forall|after: Connection| #[trigger]
                    connections_view(self.connections@.update(idx as int, after))
                        == self@.connections.update(idx as int, after@) by {
                    assert(connections_view(self.connections@.update(idx as int, after))
                        =~= self@.connections.update(idx as int, after@));
                }
            }
            Some(&mut self.connections[idx])
        } else {
            None
        }
    }

    /// A window of a connection, to be changed.
    pub fn window_mut(&mut self, conn: usize, win: usize) -> (w: Option<&mut Window>)
        requires
            old(self).wf(),
        ensures
            match w {
                Some(w) => {
                    &&& old(self)@.window(conn as int, win) == Some((*w)@)
                    &&& (*w).wf()
                    &&& final(self)@ == old(self)@.with_window(conn as int, win, (*final(w))@)
                    &&& (*final(w)).wf() && (*final(w)).id == win ==> final(self).wf()
                },
                None => {
                    &&& old(self)@.window(conn as int, win) is None
                    &&& final(self)@ == old(self)@
                    &&& final(self).wf()
                },
            },
    {
        proof {
            if conn < self@.connections.len() {
                assert(self@.connections.update(conn as int, self@.connections[conn as int])
                    =~= self@.connections);
            }
        }
        match self.connection_mut(conn) {
            Some(c) => c.window_mut(win),
            None => None,
        }
    }

    /// All windows as pairs of a connection's number and an identifier, by connection
    /// and then in the order in which they were opened.
    pub fn all_windows(&self) -> (all: Vec<(usize, usize)>)
        requires
            self.wf(),
        ensures
            all@ == self@.all(),
    {
        let mut all: Vec<(usize, usize)> = Vec::new();
        let mut ci: usize = 0;
        while ci < self.connections.len()
            invariant
                self.wf(),
                ci <= self.connections@.len(),
                all@ == flattened(self@.connections, ci as int),
            decreases self.connections@.len() - ci,
        {
            assert(self@.connections[ci as int] == self.connections@[ci as int]@);
            let ids = self.connections[ci].window_ids();
            let ghost before = all@;
            let mut i: usize = 0;
            assert(before + tagged(ci, ids@).take(0) =~= before);
            while i < ids.len()
                invariant
                    i <= ids@.len(),
                    all@ == before + tagged(ci, ids@).take(i as int),
                decreases ids@.len() - i,
            {
                all.push((ci, ids[i]));
                i += 1;
                assert(before + tagged(ci, ids@).take(i as int) =~= (before + tagged(
                    ci,
                    ids@,
                ).take(i - 1)).push((ci, ids@[i - 1])));
            }
            assert(tagged(ci, ids@).take(i as int) =~= tagged(ci, ids@));
            ci += 1;
        }
        all
    }

    /// Gives every screen another size.
    pub fn resize_windows(&mut self, cols: u16, rows: u16)
        requires
            old(self).wf(),
        ensures
            final(self).wf(),
            final(self)@ == old(self)@.resized(cols as int, rows as int),
            final(self)@.all() == old(self)@.all(),
    {
        let ghost goal = self@.resized(cols as int, rows as int);
        let mut i: usize = 0;
        while i < self.connections.len()
            invariant
                old(self).wf(),
                goal == old(self)@.resized(cols as int, rows as int),
                i <= self.connections@.len(),
                self.connections@.len() == old(self).connections@.len(),
                forall|j: int|
                    0 <= j < i ==> (#[trigger] self.connections@[j])@ == goal.connections[j]
                        && self.connections@[j].wf() && self.connections@[j]@.ids()
                        == old(self)@.connections[j].ids(),
                forall|j: int|
                    i <= j < self.connections@.len() ==> #[trigger] self.connections@[j] == old(
                        self,
                    ).connections@[j],
            decreases self.connections@.len() - i,
        {
            assert(old(self)@.connections[i as int] == old(self).connections@[i as int]@);
            self.connections[i].resize_windows(cols, rows);
            i += 1;
        }
        proof {
            assert(self@ =~= goal);
            assert forall|j: int| 0 <= j < self@.connections.len() implies (
            #[trigger] self@.connections[j]).wf() && self@.connections[j].ids() == old(
                self,
            )@.connections[j].ids() by {
                assert(self@.connections[j] == self.connections@[j]@);
            }
            lemma_same_ids(old(self)@, self@, self@.connections.len() as int);
        }
    }

    /// Sets how many lines of history every window keeps.
    pub fn limit_history(&mut self, n: usize)
        requires
            old(self).wf(),
        ensures
            final(self).wf(),
            final(self)@ == old(self)@.limited(n as int),
            final(self)@.all() == old(self)@.all(),
    {
        let ghost goal = self@.limited(n as int);
        let mut i: usize = 0;
        while i < self.connections.len()
            invariant
                old(self).wf(),
                goal == old(self)@.limited(n as int),
                i <= self.connections@.len(),
                self.connections@.len() == old(self).connections@.len(),
                forall|j: int|
                    0 <= j < i ==> (#[trigger] self.connections@[j])@ == goal.connections[j]
                        && self.connections@[j].wf() && self.connections@[j]@.ids()
                        == old(self)@.connections[j].ids(),
                forall|j: int|
                    i <= j < self.connections@.len() ==> #[trigger] self.connections@[j] == old(
                        self,
                    ).connections@[j],
            decreases self.connections@.len() - i,
        {
            assert(old(self)@.connections[i as int] == old(self).connections@[i as int]@);
            self.connections[i].limit_history(n);
            i += 1;
        }
        proof {
            assert(self@ =~= goal);
            assert forall|j: int| 0 <= j < self@.connections.len() implies (
            #[trigger] self@.connections[j]).wf() && self@.connections[j].ids() == old(
                self,
            )@.connections[j].ids() by {
                assert(self@.connections[j] == self.connections@[j]@);
            }
            lemma_same_ids(old(self)@, self@, self@.connections.len() as int);
        }
    }
}

} // verus!
