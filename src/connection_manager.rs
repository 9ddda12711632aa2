use vstd::prelude::*;

verus! {

/// The ATT MTU of a connection before any exchange.
pub const DEFAULT_ATT_MTU: u16 = 23;

/// An HCI connection handle.
#[derive(Clone, Copy, PartialEq, Eq, Structural, Debug)]
pub struct ConnHandle(pub u16);

/// The local role on an LE link.
#[derive(Clone, Copy, PartialEq, Eq, Structural, Debug)]
pub enum LeConnRole {
    Central,
    Peripheral,
}

/// What is known of an LE link.
#[derive(Clone, Copy, Debug)]
pub struct ConnectionInfo {
    pub handle: ConnHandle,
    pub status: u8,
    pub role: LeConnRole,
    pub peer_address: [u8; 6],
    pub interval: u16,
    pub latency: u16,
    pub timeout: u16,
    pub att_mtu: u16,
}

/// One slot of the connection table.
#[derive(Clone, Copy, Debug)]
pub enum ConnectionState {
    Disconnected,
    Connecting(ConnHandle, ConnectionInfo),
    Connected(ConnHandle, ConnectionInfo),
}

impl ConnectionState {
    /// Whether the slot holds a link, pending or accepted.
    pub open spec fn is_active(&self) -> bool {
        !(self is Disconnected)
    }

    /// The handle of the link in the slot.
    pub open spec fn handle(&self) -> ConnHandle
        recommends
            self.is_active(),
    {
        match self {
            ConnectionState::Connecting(h, _) => *h,
            ConnectionState::Connected(h, _) => *h,
            ConnectionState::Disconnected => ConnHandle(0),
        }
    }

    /// The link information held in the slot.
    pub open spec fn info(&self) -> ConnectionInfo
        recommends
            self.is_active(),
    {
        match self {
            ConnectionState::Connecting(_, i) => *i,
            ConnectionState::Connected(_, i) => *i,
            ConnectionState::Disconnected => arbitrary(),
        }
    }

    /// Whether the slot holds the link `h`.
    pub open spec fn holds(&self, h: ConnHandle) -> bool {
        self.is_active() && self.handle() == h
    }
}

/// The slot `i` of `slots` is the first for which `p` holds.
pub open spec fn first_where(slots: Seq<ConnectionState>, i: int, p: spec_fn(ConnectionState) -> bool) -> bool {
    &&& 0 <= i < slots.len()
    &&& p(slots[i])
    &&& forall|j: int| 0 <= j < i ==> !p(#[trigger] slots[j])
}

/// `slots` with the link `h` set to `mtu`.
pub open spec fn with_mtu(slots: Seq<ConnectionState>, h: ConnHandle, mtu: u16) -> Seq<ConnectionState> {
    slots.map_values(
        |s: ConnectionState|
            match s {
                ConnectionState::Connecting(g, i) => if g == h {
                    ConnectionState::Connecting(g, ConnectionInfo { att_mtu: mtu, ..i })
                } else {
                    s
                },
                ConnectionState::Connected(g, i) => if g == h {
                    ConnectionState::Connected(g, ConnectionInfo { att_mtu: mtu, ..i })
                } else {
                    s
                },
                ConnectionState::Disconnected => s,
            },
    )
}

/// A fixed table of `CONNS` link slots.
pub struct ConnectionManager<const CONNS: usize> {
    connections: Vec<ConnectionState>,
}

impl<const CONNS: usize> ConnectionManager<CONNS> {
    /// The slots, by index.
    pub closed spec fn slots(&self) -> Seq<ConnectionState> {
        self.connections@
    }

    /// There are `CONNS` slots, and no two of them hold the same link.
    pub open spec fn wf(&self) -> bool {
        &&& self.slots().len() == CONNS
        &&& forall|i: int, j: int|
            0 <= i < CONNS && 0 <= j < CONNS && i != j && (#[trigger] self.slots()[i]).is_active()
                && (#[trigger] self.slots()[j]).is_active() ==> self.slots()[i].handle()
                != self.slots()[j].handle()
    }

    /// Whether some slot holds the link `h`.
    pub open spec fn has_link(&self, h: ConnHandle) -> bool {
        exists|i: int| 0 <= i < self.slots().len() && #[trigger] self.slots()[i].holds(h)
    }

    /// The ATT MTU of the link `h`: that of the slot that holds it, or the default.
    pub open spec fn spec_att_mtu(&self, h: ConnHandle) -> u16 {
        if self.has_link(h) {
            self.slots()[choose|i: int|
                0 <= i < self.slots().len() && #[trigger] self.slots()[i].holds(h)].info().att_mtu
        } else {
            DEFAULT_ATT_MTU
        }
    }

    pub fn new() -> (r: Self)
        ensures
            r.wf(),
            forall|i: int| 0 <= i < CONNS ==> #[trigger] r.slots()[i] is Disconnected,
    {
        let mut connections: Vec<ConnectionState> = Vec::new();
        let mut i: usize = 0;
        while i < CONNS
            invariant
                i <= CONNS,
                connections@.len() == i,
                forall|j: int| 0 <= j < i ==> #[trigger] connections@[j] is Disconnected,
            decreases CONNS - i,
        {
            connections.push(ConnectionState::Disconnected);
            i = i + 1;
        }
        ConnectionManager { connections }
    }

    /// Ends the link `h`: every slot that holds it becomes `Disconnected`.
    pub fn disconnect(&mut self, h: ConnHandle) -> (r: Result<(), ()>)
        requires
            old(self).wf(),
        ensures
            final(self).wf(),
            r is Ok,
            final(self).slots().len() == old(self).slots().len(),
            forall|i: int|
                0 <= i < old(self).slots().len() ==> #[trigger] final(self).slots()[i] == if old(
                    self,
                ).slots()[i].holds(h) {
                    ConnectionState::Disconnected
                } else {
                    old(self).slots()[i]
                },
    {
        let mut i: usize = 0;
        while i < self.connections.len()
            invariant
                self.connections@.len() == old(self).connections@.len(),
                i <= self.connections@.len(),
                forall|j: int|
                    0 <= j < self.connections@.len() ==> #[trigger] self.connections@[j] == if j < i
                        && old(self).slots()[j].holds(h) {
                        ConnectionState::Disconnected
                    } else {
                        old(self).slots()[j]
                    },
            decreases self.connections@.len() - i,
        {
            let hit = match &self.connections[i] {
                ConnectionState::Connecting(handle, _) => *handle == h,
                ConnectionState::Connected(handle, _) => *handle == h,
                ConnectionState::Disconnected => false,
            };
            if hit {
                self.connections[i] = ConnectionState::Disconnected;
            }
            i = i + 1;
        }
        Ok(())
    }

    /// Whether some slot holds the link `h`.
    fn find(&self, h: ConnHandle) -> (r: Option<usize>)
        ensures
            match r {
                Some(i) => i < self.slots().len() && self.slots()[i as int].holds(h),
                None => !self.has_link(h),
            },
    {
        let mut i: usize = 0;
        while i < self.connections.len()
            invariant
                i <= self.connections@.len(),
                forall|j: int| 0 <= j < i ==> !(#[trigger] self.connections@[j]).holds(h),
            decreases self.connections@.len() - i,
        {
            let hit = match &self.connections[i] {
                ConnectionState::Connecting(handle, _) => *handle == h,
                ConnectionState::Connected(handle, _) => *handle == h,
                ConnectionState::Disconnected => false,
            };
            if hit {
                return Some(i);
            }
            i = i + 1;
        }
        None
    }

    /// Records the new link `handle` in the first `Disconnected` slot, as `Connecting`.
    /// Fails, changing nothing, when no slot is free or a slot already holds `handle`.
    pub fn connect(&mut self, handle: ConnHandle, info: ConnectionInfo) -> (r: Result<(), ()>)
        requires
            old(self).wf(),
        ensures
            final(self).wf(),
            r is Ok == (!old(self).has_link(handle) && exists|i: int|
                0 <= i < old(self).slots().len() && #[trigger] old(self).slots()[i] is Disconnected),
            r is Ok ==> exists|i: int|
                first_where(old(self).slots(), i, |s: ConnectionState| s is Disconnected)
                    && final(self).slots() == old(self).slots().update(
                    i,
                    ConnectionState::Connecting(handle, info),
                ),
            r is Err ==> final(self).slots() == old(self).slots(),
    {
        if self.find(handle).is_some() {
            return Err(());
        }
        let mut i: usize = 0;
        while i < self.connections.len()
            invariant
                *self == *old(self),
                old(self).wf(),
                !old(self).has_link(handle),
                i <= self.connections@.len(),
                forall|j: int| 0 <= j < i ==> !(#[trigger] self.connections@[j] is Disconnected),
            decreases self.connections@.len() - i,
        {
            if let ConnectionState::Disconnected = self.connections[i] {
                self.connections[i] = ConnectionState::Connecting(handle, info);
                assert forall|a: int| 0 <= a < CONNS && (#[trigger] self.slots()[a]).is_active() implies (
                self.slots()[a].handle() == handle) == (a == i) by {
                    if a != i {
                        assert(self.slots()[a] == old(self).slots()[a]);
                        assert(!old(self).slots()[a].holds(handle));
                    }
                }
                assert(first_where(old(self).slots(), i as int, |s: ConnectionState| s is Disconnected));
                return Ok(());
            }
            i = i + 1;
        }
        Err(())
    }

    /// Accepts the first pending link: its slot becomes `Connected` and its handle is
    /// returned. `None`, changing nothing, when no link is pending.
    pub fn poll_accept(&mut self) -> (r: Option<ConnHandle>)
        requires
            old(self).wf(),
        ensures
            final(self).wf(),
            r is None == forall|i: int|
                0 <= i < old(self).slots().len() ==> !(#[trigger] old(self).slots()[i] is Connecting),
            r is None ==> final(self).slots() == old(self).slots(),
            r matches Some(h) ==> exists|i: int|
                first_where(old(self).slots(), i, |s: ConnectionState| s is Connecting)
                    && old(self).slots()[i].handle() == h && final(self).slots()
                    == old(self).slots().update(
                    i,
                    ConnectionState::Connected(h, old(self).slots()[i].info()),
                ),
    {
        let mut i: usize = 0;
        while i < self.connections.len()
            invariant
                *self == *old(self),
                old(self).wf(),
                i <= self.connections@.len(),
                forall|j: int| 0 <= j < i ==> !(#[trigger] self.connections@[j] is Connecting),
            decreases self.connections@.len() - i,
        {
            if let ConnectionState::Connecting(handle, info) = self.connections[i] {
                self.connections[i] = ConnectionState::Connected(handle, info);
                assert forall|a: int| 0 <= a < CONNS implies (#[trigger] self.slots()[a]).is_active()
                    == old(self).slots()[a].is_active() && self.slots()[a].handle() == old(
                    self,
                ).slots()[a].handle() by {
                    if a != i {
                        assert(self.slots()[a] == old(self).slots()[a]);
                    }
                }
                assert(first_where(old(self).slots(), i as int, |s: ConnectionState| s is Connecting));
                return Some(handle);
            }
            i = i + 1;
        }
        None
    }

    /// The ATT MTU of the link `h`; the default when no slot holds it.
    pub fn get_att_mtu(&self, h: ConnHandle) -> (r: u16)
        requires
            self.wf(),
        ensures
            self.has_link(h) ==> exists|i: int|
                0 <= i < self.slots().len() && #[trigger] self.slots()[i].holds(h) && r
                    == self.slots()[i].info().att_mtu,
            !self.has_link(h) ==> r == DEFAULT_ATT_MTU,
            r == self.spec_att_mtu(h),
    {
        match self.find(h) {
            Some(i) => {
                proof {
                    let j = choose|j: int|
                        0 <= j < self.slots().len() && #[trigger] self.slots()[j].holds(h);
                    assert(self.slots()[i as int].holds(h));
                    assert(j == i);
                }
                match &self.connections[i] {
                ConnectionState::Connecting(_, info) => info.att_mtu,
                ConnectionState::Connected(_, info) => info.att_mtu,
                ConnectionState::Disconnected => DEFAULT_ATT_MTU,
                }
            },
            None => DEFAULT_ATT_MTU,
        }
    }

    /// Settles the ATT MTU of the link `h` on the smaller of what the peer asks and what
    /// this side supports, and returns it; the default when no slot holds `h`.
    pub fn exchange_att_mtu(&mut self, h: ConnHandle, local_max: u16, peer_mtu: u16) -> (r: u16)
        requires
            old(self).wf(),
        ensures
            final(self).wf(),
            old(self).has_link(h) ==> r == (if peer_mtu < local_max {
                peer_mtu
            } else {
                local_max
            }) && final(self).slots() == with_mtu(old(self).slots(), h, r),
            !old(self).has_link(h) ==> r == DEFAULT_ATT_MTU && final(self).slots() == old(self).slots(),
    {
        let mtu = if peer_mtu < local_max {
            peer_mtu
        } else {
            local_max
        };
        match self.find(h) {
            Some(i) => {
                let s = self.connections[i];
                let next = match s {
                    ConnectionState::Connecting(g, info) => ConnectionState::Connecting(
                        g,
                        ConnectionInfo { att_mtu: mtu, ..info },
                    ),
                    ConnectionState::Connected(g, info) => ConnectionState::Connected(
                        g,
                        ConnectionInfo { att_mtu: mtu, ..info },
                    ),
                    ConnectionState::Disconnected => s,
                };
                self.connections[i] = next;
                assert(self.connections@ =~= with_mtu(old(self).slots(), h, mtu));
                mtu
            },
            None => {
                assert(self.connections@ =~= with_mtu(old(self).slots(), h, mtu)) by {
                    assert forall|j: int| 0 <= j < self.connections@.len() implies !(
                    #[trigger] self.connections@[j]).holds(h) by {}
                }
                DEFAULT_ATT_MTU
            },
        }
    }
}

} // verus!
