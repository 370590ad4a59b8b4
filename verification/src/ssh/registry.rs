//! The registry of SSH connections, mounts and tunnels, and of the sessions that
//! run over each connection.
use super::model::{
    SshConnectionId, SshConnectionStatus, SshConnectionSummary, SshMountBackend, SshMountId,
    SshMountStatus, SshMountSummary, SshTarget, SshTunnelId, SshTunnelSummary, target_summary,
};
use crate::error::Failure;
use crate::ordered::{
    lemma_filter_lists, lemma_sorted_distinct, lists_in_order, OrderedMap,
};
use crate::outside::is_new_id;
use crate::session::model::{id_texts, SessionId};
use crate::text::{cat2, cat4, decimal, decimal_text, same};
use crate::timestamp::Timestamp;
use vstd::prelude::*;

verus! {

/// How many sessions and mounts of a connection are active.
#[derive(Debug, Clone, Copy, PartialEq, Eq, Structural)]
pub struct SshConnectionResourceCounts {
    pub active_session_count: usize,
    pub active_mount_count: usize,
}

impl SshConnectionResourceCounts {
    /// Whether anything is active.
    pub fn has_active_resources(self) -> (r: bool)
        ensures
            r == (self.active_session_count > 0 || self.active_mount_count > 0),
    {
        self.active_session_count > 0 || self.active_mount_count > 0
    }
}

/// What belongs to a connection.
#[derive(Debug, PartialEq, Eq)]
pub struct SshConnectionRelations {
    pub session_ids: Vec<SessionId>,
    pub mount_ids: Vec<SshMountId>,
}

/// The texts of mount identifiers.
pub open spec fn mount_id_texts(ids: Seq<SshMountId>) -> Seq<Seq<char>> {
    ids.map_values(|m: SshMountId| m@)
}

/// The sessions that are linked to a connection.
pub open spec fn linked(links: Map<Seq<char>, Seq<char>>, connection: Seq<char>) -> Set<Seq<char>> {
    Set::new(|s: Seq<char>| links.contains_key(s) && links[s] == connection)
}

/// Whether a mount in this status holds on to its connection.
pub open spec fn mount_is_active(status: SshMountStatus) -> bool {
    status == SshMountStatus::Mounting || status == SshMountStatus::Mounted || status
        == SshMountStatus::Unmounting
}

impl SshMountStatus {
    /// Whether a mount in this status holds on to its connection.
    pub fn is_active(&self) -> (r: bool)
        ensures
            r == mount_is_active(*self),
    {
        match self {
            SshMountStatus::Mounting | SshMountStatus::Mounted | SshMountStatus::Unmounting => true,
            _ => false,
        }
    }
}

/// The mounts of a connection.
pub open spec fn mounted(
    mounts: Map<Seq<char>, SshMountSummary>,
    connection: Seq<char>,
) -> Set<Seq<char>> {
    Set::new(
        |m: Seq<char>| mounts.contains_key(m) && mounts[m].connection_id@ == connection,
    )
}

/// The active mounts of a connection.
pub open spec fn active_mounts(
    mounts: Map<Seq<char>, SshMountSummary>,
    connection: Seq<char>,
) -> Set<Seq<char>> {
    Set::new(
        |m: Seq<char>|
            mounts.contains_key(m) && mounts[m].connection_id@ == connection && mount_is_active(
                mounts[m].status,
            ),
    )
}

/// A connection with its counts taken anew.
pub open spec fn recounted(
    c: SshConnectionSummary,
    links: Map<Seq<char>, Seq<char>>,
    mounts: Map<Seq<char>, SshMountSummary>,
) -> SshConnectionSummary {
    SshConnectionSummary {
        active_session_count: linked(links, c.connection_id@).len() as usize,
        active_mount_count: active_mounts(mounts, c.connection_id@).len() as usize,
        ..c
    }
}

/// All connections with their counts taken anew.
pub open spec fn recount(
    connections: Map<Seq<char>, SshConnectionSummary>,
    links: Map<Seq<char>, Seq<char>>,
    mounts: Map<Seq<char>, SshMountSummary>,
) -> Map<Seq<char>, SshConnectionSummary> {
    Map::new(
        |k: Seq<char>| connections.contains_key(k),
        |k: Seq<char>| recounted(connections[k], links, mounts),
    )
}

/// The connections after one of them was used at a moment.
pub open spec fn touched(
    connections: Map<Seq<char>, SshConnectionSummary>,
    id: Seq<char>,
    at: Option<Timestamp>,
) -> Map<Seq<char>, SshConnectionSummary> {
    if connections.contains_key(id) {
        connections.insert(id, SshConnectionSummary { last_used_at: at, ..connections[id] })
    } else {
        connections
    }
}

/// Whether `after` are the connections once one of them was used, at some
/// moment, and the counts taken anew.
pub open spec fn used_and_recounted(
    before: Map<Seq<char>, SshConnectionSummary>,
    id: Seq<char>,
    links: Map<Seq<char>, Seq<char>>,
    mounts: Map<Seq<char>, SshMountSummary>,
    after: Map<Seq<char>, SshConnectionSummary>,
) -> bool {
    &&& after == recount(touched(before, id, after[id].last_used_at), links, mounts)
    &&& before.contains_key(id) ==> after[id].last_used_at is Some
}

/// The links without those of a connection.
pub open spec fn without_links(
    links: Map<Seq<char>, Seq<char>>,
    connection: Seq<char>,
) -> Map<Seq<char>, Seq<char>> {
    Map::new(
        |s: Seq<char>| links.contains_key(s) && links[s] != connection,
        |s: Seq<char>| links[s],
    )
}

/// The mounts without those of a connection.
pub open spec fn without_mounts(
    mounts: Map<Seq<char>, SshMountSummary>,
    connection: Seq<char>,
) -> Map<Seq<char>, SshMountSummary> {
    Map::new(
        |m: Seq<char>| mounts.contains_key(m) && mounts[m].connection_id@ != connection,
        |m: Seq<char>| mounts[m],
    )
}

/// Says that there is no such connection.
pub open spec fn connection_not_found_text(id: Seq<char>) -> Seq<char> {
    "ssh connection not found: connection_id="@ + id
}

/// The failure of a request for a connection that is not there.
pub fn ssh_connection_not_found(connection_id: &SshConnectionId) -> (r: Failure)
    ensures
        r@ == connection_not_found_text(connection_id@),
{
    Failure::new(cat2("ssh connection not found: connection_id=", connection_id.as_str()))
}

/// The connections, their mounts and tunnels, and which session runs over which
/// connection.
pub struct SshRegistry {
    connections: OrderedMap<SshConnectionSummary>,
    mounts: OrderedMap<SshMountSummary>,
    tunnels: OrderedMap<SshTunnelSummary>,
    links: OrderedMap<String>,
}

impl Default for SshRegistry {
    fn default() -> (r: Self)
        ensures
            r.wf(),
            r.is_empty(),
    {
        SshRegistry::new()
    }
}

impl SshRegistry {
    /// The connections by identifier.
    pub closed spec fn connections(&self) -> Map<Seq<char>, SshConnectionSummary> {
        self.connections@
    }

    /// The mounts by identifier.
    pub closed spec fn mounts(&self) -> Map<Seq<char>, SshMountSummary> {
        self.mounts@
    }

    /// The tunnels by identifier.
    pub closed spec fn tunnels(&self) -> Map<Seq<char>, SshTunnelSummary> {
        self.tunnels@
    }

    /// The connection that each session runs over.
    pub closed spec fn links(&self) -> Map<Seq<char>, Seq<char>> {
        Map::new(|s: Seq<char>| self.links@.contains_key(s), |s: Seq<char>| self.links@[s]@)
    }

    /// The identifiers of the connections in order.
    pub closed spec fn connection_ids(&self) -> Seq<Seq<char>> {
        self.connections.keys()
    }

    /// The identifiers of the mounts in order.
    pub closed spec fn mount_ids(&self) -> Seq<Seq<char>> {
        self.mounts.keys()
    }

    /// The identifiers of the tunnels in order.
    pub closed spec fn tunnel_ids(&self) -> Seq<Seq<char>> {
        self.tunnels.keys()
    }

    /// Whether the registry holds nothing.
    pub open spec fn is_empty(&self) -> bool {
        &&& self.connections() == Map::<Seq<char>, SshConnectionSummary>::empty()
        &&& self.mounts() == Map::<Seq<char>, SshMountSummary>::empty()
        &&& self.tunnels() == Map::<Seq<char>, SshTunnelSummary>::empty()
        &&& self.links() == Map::<Seq<char>, Seq<char>>::empty()
    }

    /// Each summary stands under its own identifier.
    closed spec fn keyed(&self) -> bool {
        &&& self.connections.wf()
        &&& self.mounts.wf()
        &&& self.tunnels.wf()
        &&& self.links.wf()
        &&& forall|k: Seq<char>| #[trigger]
            self.connections@.contains_key(k) ==> self.connections@[k].connection_id@ == k
        &&& forall|k: Seq<char>| #[trigger]
            self.mounts@.contains_key(k) ==> self.mounts@[k].mount_id@ == k
        &&& forall|k: Seq<char>| #[trigger]
            self.tunnels@.contains_key(k) ==> self.tunnels@[k].tunnel_id@ == k
    }

    /// The counts of a connection are those of its sessions and mounts.
    closed spec fn counted(&self, k: Seq<char>) -> bool {
        self.connections@.contains_key(k) ==> {
            &&& self.connections@[k].active_session_count == linked(self.links(), k).len()
            &&& self.connections@[k].active_mount_count == active_mounts(self.mounts@, k).len()
        }
    }

    /// A registry is valid: each summary stands under its own identifier, and
    /// each connection counts exactly the sessions that are linked to it and its
    /// active mounts.
    pub closed spec fn wf(&self) -> bool {
        &&& self.keyed()
        &&& forall|k: Seq<char>| #[trigger] self.counted(k)
    }

    /// What a valid registry promises of each connection.
    pub proof fn lemma_counts(&self, id: Seq<char>)
        requires
            self.wf(),
            self.connections().contains_key(id),
        ensures
            self.connections()[id].connection_id@ == id,
            self.connections()[id].active_session_count == linked(self.links(), id).len(),
            self.connections()[id].active_mount_count == active_mounts(self.mounts(), id).len(),
            linked(self.links(), id).finite(),
            active_mounts(self.mounts(), id).finite(),
    {
        assert(self.counted(id));
        self.lemma_link_count(id, |s: Seq<char>| self.links()[s] == id);
        self.lemma_mount_count(id);
    }

    /// The identifiers list what the registry holds in order, and each summary
    /// stands under its own.
    pub proof fn lemma_ids(&self)
        requires
            self.wf(),
        ensures
            lists_in_order(self.connection_ids(), self.connections().dom()),
            lists_in_order(self.mount_ids(), self.mounts().dom()),
            lists_in_order(self.tunnel_ids(), self.tunnels().dom()),
            forall|k: Seq<char>| #[trigger]
                self.connections().contains_key(k) ==> self.connections()[k].connection_id@ == k,
            forall|k: Seq<char>| #[trigger]
                self.mounts().contains_key(k) ==> self.mounts()[k].mount_id@ == k,
            forall|k: Seq<char>| #[trigger]
                self.tunnels().contains_key(k) ==> self.tunnels()[k].tunnel_id@ == k,
    {
        self.connections.lemma_listing();
        self.mounts.lemma_listing();
        self.tunnels.lemma_listing();
    }

    /// The links of a connection, as far as they are listed.
    proof fn lemma_link_count(&self, c: Seq<char>, want: spec_fn(Seq<char>) -> bool)
        requires
            self.links.wf(),
            forall|s: Seq<char>| #[trigger] want(s) == (self.links()[s] == c),
        ensures
            lists_in_order(self.links.keys().filter(want), linked(self.links(), c)),
            linked(self.links(), c).finite(),
            linked(self.links(), c).len() == self.links.keys().filter(want).len(),
            linked(self.links(), c).len() <= self.links.keys().len(),
    {
        let keys = self.links.keys();
        self.links.lemma_listing();
        lemma_filter_lists(keys, want);
        assert(Set::new(|k: Seq<char>| keys.contains(k) && want(k)) =~= linked(self.links(), c));
        lemma_sorted_distinct(keys.filter(want));
        keys.filter(want).unique_seq_to_set();
        vstd::seq_lib::seq_to_set_is_finite(keys.filter(want));
        keys.lemma_filter_len(want);
    }

    /// The active mounts of a connection, as far as they are listed.
    proof fn lemma_mount_count(&self, c: Seq<char>)
        requires
            self.mounts.wf(),
        ensures
            active_mounts(self.mounts@, c).finite(),
            active_mounts(self.mounts@, c).len() == self.mounts.keys().filter(
                |m: Seq<char>|
                    self.mounts@[m].connection_id@ == c && mount_is_active(self.mounts@[m].status),
            ).len(),
            active_mounts(self.mounts@, c).len() <= self.mounts.keys().len(),
    {
        let want = |m: Seq<char>|
            self.mounts@[m].connection_id@ == c && mount_is_active(self.mounts@[m].status);
        let keys = self.mounts.keys();
        self.mounts.lemma_listing();
        lemma_filter_lists(keys, want);
        assert(Set::new(|k: Seq<char>| keys.contains(k) && want(k)) =~= active_mounts(
            self.mounts@,
            c,
        ));
        lemma_sorted_distinct(keys.filter(want));
        keys.filter(want).unique_seq_to_set();
        vstd::seq_lib::seq_to_set_is_finite(keys.filter(want));
        keys.lemma_filter_len(want);
    }

    /// An empty registry.
    pub fn new() -> (r: Self)
        ensures
            r.wf(),
            r.is_empty(),
    {
        let r = SshRegistry {
            connections: OrderedMap::new(),
            mounts: OrderedMap::new(),
            tunnels: OrderedMap::new(),
            links: OrderedMap::new(),
        };
        assert(r.links() =~= Map::<Seq<char>, Seq<char>>::empty());
        r
    }

    /// How many sessions are linked to a connection.
    fn count_links(&self, connection_id: &str) -> (r: usize)
        requires
            self.links.wf(),
        ensures
            r == linked(self.links(), connection_id@).len(),
    {
        let ghost want = |s: Seq<char>| self.links()[s] == connection_id@;
        let mut count: usize = 0;
        let mut i: usize = 0;
        proof {
            self.links.lemma_listing();
            reveal(Seq::filter);
            assert(self.links.keys().take(0).filter(want).len() == 0);
        }
        let n: usize = self.links.len();
        while i < n
            invariant
                self.links.wf(),
                i <= n == self.links.keys().len(),
                count <= i,
                want == (|s: Seq<char>| self.links()[s] == connection_id@),
                count == self.links.keys().take(i as int).filter(want).len(),
            decreases n - i,
        {
            let ghost key = self.links.keys()[i as int];
            proof {
                self.links.lemma_listing();
                assert(self.links@.contains_key(self.links.keys()[i as int]));
                assert(self.links.keys().take(i + 1) =~= self.links.keys().take(i as int).push(
                    key,
                ));
                self.links.keys().take(i as int).lemma_filter_push(key, want);
            }
            if same(self.links.value_at(i).as_str(), connection_id) {
                count = count + 1;
            }
            i = i + 1;
        }
        proof {
            assert(self.links.keys().take(i as int) =~= self.links.keys());
            self.lemma_link_count(connection_id@, want);
        }
        count
    }

    /// How many active mounts a connection has.
    fn count_active_mounts(&self, connection_id: &str) -> (r: usize)
        requires
            self.mounts.wf(),
        ensures
            r == active_mounts(self.mounts@, connection_id@).len(),
    {
        let ghost want = |m: Seq<char>|
            self.mounts@[m].connection_id@ == connection_id@ && mount_is_active(
                self.mounts@[m].status,
            );
        let mut count: usize = 0;
        let mut i: usize = 0;
        proof {
            self.mounts.lemma_listing();
            reveal(Seq::filter);
            assert(self.mounts.keys().take(0).filter(want).len() == 0);
        }
        let n: usize = self.mounts.len();
        while i < n
            invariant
                self.mounts.wf(),
                i <= n == self.mounts.keys().len(),
                count <= i,
                want == (|m: Seq<char>|
                    self.mounts@[m].connection_id@ == connection_id@ && mount_is_active(
                        self.mounts@[m].status,
                    )),
                count == self.mounts.keys().take(i as int).filter(want).len(),
            decreases n - i,
        {
            let ghost key = self.mounts.keys()[i as int];
            proof {
                self.mounts.lemma_listing();
                assert(self.mounts@.contains_key(self.mounts.keys()[i as int]));
                assert(self.mounts.keys().take(i + 1) =~= self.mounts.keys().take(i as int).push(
                    key,
                ));
                self.mounts.keys().take(i as int).lemma_filter_push(key, want);
            }
            let mount = self.mounts.value_at(i);
            if same(mount.connection_id.as_str(), connection_id) && mount.status.is_active() {
                count = count + 1;
            }
            i = i + 1;
        }
        proof {
            assert(self.mounts.keys().take(i as int) =~= self.mounts.keys());
            self.lemma_mount_count(connection_id@);
        }
        count
    }

    /// Takes the counts of one connection anew.
    fn refresh_connection_counts(&mut self, connection_id: &str)
        requires
            old(self).keyed(),
        ensures
            final(self).keyed(),
            final(self).mounts() == old(self).mounts(),
            final(self).tunnels() == old(self).tunnels(),
            final(self).links() == old(self).links(),
            final(self).connections() == if old(self).connections().contains_key(connection_id@) {
                old(self).connections().insert(
                    connection_id@,
                    recounted(
                        old(self).connections()[connection_id@],
                        old(self).links(),
                        old(self).mounts(),
                    ),
                )
            } else {
                old(self).connections()
            },
            final(self).counted(connection_id@),
    {
        let sessions: usize = self.count_links(connection_id);
        let mounts: usize = self.count_active_mounts(connection_id);
        let ghost all = self.connections@;
        match self.connections.remove(connection_id) {
            Some(connection) => {
                let mut connection = connection;
                connection.active_session_count = sessions;
                connection.active_mount_count = mounts;
                let ghost changed = connection;
                let _ = self.connections.insert(connection_id.to_owned(), connection);
                assert(self.connections@ =~= all.insert(connection_id@, changed));
            },
            None => {
                assert(self.connections@ =~= all);
            },
        }
    }

    /// Notes that a connection was used at a moment.
    pub fn touch_connection_at(&mut self, connection_id: &SshConnectionId, now: Timestamp)
        requires
            old(self).wf(),
        ensures
            final(self).wf(),
            final(self).mounts() == old(self).mounts(),
            final(self).tunnels() == old(self).tunnels(),
            final(self).links() == old(self).links(),
            final(self).connections() == touched(
                old(self).connections(),
                connection_id@,
                Some(now),
            ),
    {
        let ghost before = *self;
        self.touch_unchecked(connection_id.as_str(), now);
        proof {
            assert forall|k: Seq<char>| #[trigger] self.counted(k) by {
                assert(before.counted(k));
            }
        }
    }

    fn touch_unchecked(&mut self, connection_id: &str, now: Timestamp)
        requires
            old(self).keyed(),
        ensures
            final(self).keyed(),
            final(self).mounts() == old(self).mounts(),
            final(self).tunnels() == old(self).tunnels(),
            final(self).links() == old(self).links(),
            final(self).connections() == touched(
                old(self).connections(),
                connection_id@,
                Some(now),
            ),
    {
        let ghost all = self.connections@;
        match self.connections.remove(connection_id) {
            Some(connection) => {
                let mut connection = connection;
                connection.last_used_at = Some(now);
                let ghost changed = connection;
                let _ = self.connections.insert(connection_id.to_owned(), connection);
                assert(self.connections@ =~= all.insert(connection_id@, changed));
            },
            None => {
                assert(self.connections@ =~= all);
            },
        }
    }

    /// Notes that a connection was just used.
    pub fn touch_connection(&mut self, connection_id: &SshConnectionId)
        requires
            old(self).wf(),
        ensures
            final(self).wf(),
            final(self).mounts() == old(self).mounts(),
            final(self).tunnels() == old(self).tunnels(),
            final(self).links() == old(self).links(),
            used_and_recounted(
                old(self).connections(),
                connection_id@,
                old(self).links(),
                old(self).mounts(),
                final(self).connections(),
            ),
    {
        let ghost before = *self;
        self.touch_connection_at(connection_id, Timestamp::now());
        proof {
            let id = connection_id@;
            let t = touched(before.connections@, id, self.connections@[id].last_used_at);
            assert(t.dom() =~= before.connections@.dom());
            before.lemma_recount_is_identity(t);
            assert(self.connections@ =~= t);
        }
    }

    /// In a valid registry, counting anew changes nothing.
    proof fn lemma_recount_is_identity(&self, connections: Map<Seq<char>, SshConnectionSummary>)
        requires
            self.wf(),
            connections.dom() == self.connections@.dom(),
            forall|k: Seq<char>| #[trigger]
                connections.contains_key(k) ==> {
                    &&& connections[k].connection_id == self.connections@[k].connection_id
                    &&& connections[k].active_session_count
                        == self.connections@[k].active_session_count
                    &&& connections[k].active_mount_count == self.connections@[k].active_mount_count
                },
        ensures
            recount(connections, self.links(), self.mounts()) == connections,
    {
        assert forall|k: Seq<char>| #[trigger] connections.contains_key(k) implies recounted(
            connections[k],
            self.links(),
            self.mounts(),
        ) == connections[k] by {
            assert(self.connections@.contains_key(k));
            assert(self.counted(k));
        }
        assert(recount(connections, self.links(), self.mounts()) =~= connections);
    }

    /// All connections, in the order of their identifiers.
    pub fn list_connections(&self) -> (r: Vec<SshConnectionSummary>)
        requires
            self.wf(),
        ensures
            r@ == self.connection_ids().map_values(|k: Seq<char>| self.connections()[k]),
    {
        let mut r: Vec<SshConnectionSummary> = Vec::new();
        let mut i: usize = 0;
        let n: usize = self.connections.len();
        while i < n
            invariant
                self.wf(),
                i <= n == self.connections.keys().len(),
                r@ == self.connection_ids().map_values(
                    |k: Seq<char>| self.connections()[k],
                ).take(i as int),
            decreases n - i,
        {
            proof {
                self.connections.lemma_listing();
                assert(self.connections@.contains_key(self.connections.keys()[i as int]));
            }
            r.push(self.connections.value_at(i).clone());
            i = i + 1;
            proof {
                let all = self.connection_ids().map_values(|k: Seq<char>| self.connections()[k]);
                assert(all.take(i as int) =~= all.take(i - 1).push(all[i - 1]));
            }
        }
        assert(r@ =~= self.connection_ids().map_values(|k: Seq<char>| self.connections()[k]));
        r
    }

    /// All mounts, in the order of their identifiers.
    pub fn list_mounts(&self) -> (r: Vec<SshMountSummary>)
        requires
            self.wf(),
        ensures
            r@ == self.mount_ids().map_values(|k: Seq<char>| self.mounts()[k]),
    {
        let mut r: Vec<SshMountSummary> = Vec::new();
        let mut i: usize = 0;
        let n: usize = self.mounts.len();
        while i < n
            invariant
                self.wf(),
                i <= n == self.mounts.keys().len(),
                r@ == self.mount_ids().map_values(|k: Seq<char>| self.mounts()[k]).take(i as int),
            decreases n - i,
        {
            proof {
                self.mounts.lemma_listing();
                assert(self.mounts@.contains_key(self.mounts.keys()[i as int]));
            }
            r.push(self.mounts.value_at(i).clone());
            i = i + 1;
            proof {
                let all = self.mount_ids().map_values(|k: Seq<char>| self.mounts()[k]);
                assert(all.take(i as int) =~= all.take(i - 1).push(all[i - 1]));
            }
        }
        assert(r@ =~= self.mount_ids().map_values(|k: Seq<char>| self.mounts()[k]));
        r
    }

    /// All tunnels, in the order of their identifiers.
    pub fn list_tunnels(&self) -> (r: Vec<SshTunnelSummary>)
        requires
            self.wf(),
        ensures
            r@ == self.tunnel_ids().map_values(|k: Seq<char>| self.tunnels()[k]),
    {
        let mut r: Vec<SshTunnelSummary> = Vec::new();
        let mut i: usize = 0;
        let n: usize = self.tunnels.len();
        while i < n
            invariant
                self.wf(),
                i <= n == self.tunnels.keys().len(),
                r@ == self.tunnel_ids().map_values(|k: Seq<char>| self.tunnels()[k]).take(i as int),
            decreases n - i,
        {
            proof {
                self.tunnels.lemma_listing();
                assert(self.tunnels@.contains_key(self.tunnels.keys()[i as int]));
            }
            r.push(self.tunnels.value_at(i).clone());
            i = i + 1;
            proof {
                let all = self.tunnel_ids().map_values(|k: Seq<char>| self.tunnels()[k]);
                assert(all.take(i as int) =~= all.take(i - 1).push(all[i - 1]));
            }
        }
        assert(r@ =~= self.tunnel_ids().map_values(|k: Seq<char>| self.tunnels()[k]));
        r
    }

    /// The identifiers of a connection's mounts, in order.
    fn mount_ids_of(&self, connection_id: &str) -> (r: Vec<SshMountId>)
        requires
            self.wf(),
        ensures
            lists_in_order(mount_id_texts(r@), mounted(self.mounts(), connection_id@)),
    {
        let ghost want = |m: Seq<char>| self.mounts@[m].connection_id@ == connection_id@;
        let mut r: Vec<SshMountId> = Vec::new();
        let mut i: usize = 0;
        proof {
            self.mounts.lemma_listing();
            reveal(Seq::filter);
            assert(mount_id_texts(r@) =~= self.mounts.keys().take(0).filter(want));
        }
        let n: usize = self.mounts.len();
        while i < n
            invariant
                self.wf(),
                i <= n == self.mounts.keys().len(),
                want == (|m: Seq<char>| self.mounts@[m].connection_id@ == connection_id@),
                mount_id_texts(r@) == self.mounts.keys().take(i as int).filter(want),
            decreases n - i,
        {
            let ghost key = self.mounts.keys()[i as int];
            let ghost before = r@;
            proof {
                self.mounts.lemma_listing();
                assert(self.mounts@.contains_key(self.mounts.keys()[i as int]));
                assert(self.mounts.keys().take(i + 1) =~= self.mounts.keys().take(i as int).push(
                    key,
                ));
                self.mounts.keys().take(i as int).lemma_filter_push(key, want);
            }
            let mount = self.mounts.value_at(i);
            if same(mount.connection_id.as_str(), connection_id) {
                r.push(mount.mount_id.clone());
                assert(mount_id_texts(r@) =~= mount_id_texts(before).push(key));
            }
            i = i + 1;
        }
        proof {
            assert(self.mounts.keys().take(i as int) =~= self.mounts.keys());
            self.mounts.lemma_listing();
            lemma_filter_lists(self.mounts.keys(), want);
            assert(Set::new(|k: Seq<char>| self.mounts.keys().contains(k) && want(k)) =~= mounted(
                self.mounts@,
                connection_id@,
            ));
        }
        r
    }

    /// The mounts of a connection, in the order of their identifiers.
    pub fn list_mounts_for_connection(&self, connection_id: &SshConnectionId) -> (r: Vec<
        SshMountSummary,
    >)
        requires
            self.wf(),
        ensures
            lists_in_order(
                r@.map_values(|m: SshMountSummary| m.mount_id@),
                mounted(self.mounts(), connection_id@),
            ),
            forall|i: int| 0 <= i < r@.len() ==> #[trigger] r@[i] == self.mounts()[r@[i].mount_id@],
    {
        let ids = self.mount_ids_of(connection_id.as_str());
        let mut r: Vec<SshMountSummary> = Vec::new();
        let mut i: usize = 0;
        while i < ids.len()
            invariant
                self.wf(),
                i <= ids@.len(),
                r@.len() == i,
                mount_id_texts(ids@).to_set() == mounted(self.mounts(), connection_id@),
                forall|k: int|
                    0 <= k < i ==> (#[trigger] r@[k]).mount_id@ == ids@[k]@ && r@[k]
                        == self.mounts()[r@[k].mount_id@],
            decreases ids@.len() - i,
        {
            proof {
                assert(mount_id_texts(ids@)[i as int] == ids@[i as int]@);
                assert(mount_id_texts(ids@).contains(ids@[i as int]@));
                assert(mount_id_texts(ids@).to_set().contains(ids@[i as int]@));
                assert(self.mounts@.contains_key(ids@[i as int]@));
            }
            match self.mounts.get(ids[i].as_str()) {
                Some(mount) => {
                    r.push(mount.clone());
                },
                None => {},
            }
            i = i + 1;
        }
        assert(r@.map_values(|m: SshMountSummary| m.mount_id@) =~= mount_id_texts(ids@));
        r
    }

    /// The tunnels of a connection, in the order of their identifiers.
    pub fn list_tunnels_for_connection(&self, connection_id: &SshConnectionId) -> (r: Vec<
        SshTunnelSummary,
    >)
        requires
            self.wf(),
        ensures
            lists_in_order(
                r@.map_values(|t: SshTunnelSummary| t.tunnel_id@),
                Set::new(
                    |k: Seq<char>|
                        self.tunnels().contains_key(k) && self.tunnels()[k].connection_id@
                            == connection_id@,
                ),
            ),
            forall|i: int|
                0 <= i < r@.len() ==> #[trigger] r@[i] == self.tunnels()[r@[i].tunnel_id@]
                    && r@[i].connection_id@ == connection_id@,
    {
        let ghost want = |t: Seq<char>| self.tunnels@[t].connection_id@ == connection_id@;
        let ghost name = |t: SshTunnelSummary| t.tunnel_id@;
        let mut r: Vec<SshTunnelSummary> = Vec::new();
        let mut i: usize = 0;
        proof {
            self.tunnels.lemma_listing();
            reveal(Seq::filter);
            assert(r@.map_values(name) =~= self.tunnels.keys().take(0).filter(want));
        }
        let n: usize = self.tunnels.len();
        while i < n
            invariant
                self.wf(),
                i <= n == self.tunnels.keys().len(),
                want == (|t: Seq<char>| self.tunnels@[t].connection_id@ == connection_id@),
                name == (|t: SshTunnelSummary| t.tunnel_id@),
                r@.map_values(name) == self.tunnels.keys().take(i as int).filter(want),
                forall|k: int|
                    0 <= k < r@.len() ==> #[trigger] r@[k] == self.tunnels()[r@[k].tunnel_id@]
                        && r@[k].connection_id@ == connection_id@,
            decreases n - i,
        {
            let ghost key = self.tunnels.keys()[i as int];
            let ghost before = r@;
            proof {
                self.tunnels.lemma_listing();
                assert(self.tunnels@.contains_key(self.tunnels.keys()[i as int]));
                assert(self.tunnels.keys().take(i + 1) =~= self.tunnels.keys().take(i as int).push(
                    key,
                ));
                self.tunnels.keys().take(i as int).lemma_filter_push(key, want);
            }
            let tunnel = self.tunnels.value_at(i);
            if tunnel.connection_id.same_as(connection_id) {
                r.push(tunnel.clone());
                assert(r@.map_values(name) =~= before.map_values(name).push(key));
            }
            i = i + 1;
        }
        proof {
            assert(self.tunnels.keys().take(i as int) =~= self.tunnels.keys());
            self.tunnels.lemma_listing();
            lemma_filter_lists(self.tunnels.keys(), want);
            assert(Set::new(|k: Seq<char>| self.tunnels.keys().contains(k) && want(k)) =~= Set::new(
                |k: Seq<char>|
                    self.tunnels().contains_key(k) && self.tunnels()[k].connection_id@
                        == connection_id@,
            ));
        }
        r
    }

    /// The sessions that are linked to a connection, in the order of their
    /// identifiers.
    pub fn list_sessions_for_connection(&self, connection_id: &SshConnectionId) -> (r: Vec<
        SessionId,
    >)
        requires
            self.wf(),
        ensures
            lists_in_order(id_texts(r@), linked(self.links(), connection_id@)),
    {
        let ghost want = |s: Seq<char>| self.links()[s] == connection_id@;
        let mut r: Vec<SessionId> = Vec::new();
        let mut i: usize = 0;
        proof {
            self.links.lemma_listing();
            reveal(Seq::filter);
            assert(id_texts(r@) =~= self.links.keys().take(0).filter(want));
        }
        let n: usize = self.links.len();
        while i < n
            invariant
                self.wf(),
                i <= n == self.links.keys().len(),
                want == (|s: Seq<char>| self.links()[s] == connection_id@),
                id_texts(r@) == self.links.keys().take(i as int).filter(want),
            decreases n - i,
        {
            let ghost key = self.links.keys()[i as int];
            let ghost before = r@;
            proof {
                self.links.lemma_listing();
                assert(self.links@.contains_key(self.links.keys()[i as int]));
                assert(self.links.keys().take(i + 1) =~= self.links.keys().take(i as int).push(
                    key,
                ));
                self.links.keys().take(i as int).lemma_filter_push(key, want);
            }
            if same(self.links.value_at(i).as_str(), connection_id.as_str()) {
                r.push(SessionId::of(self.links.key_at(i).as_str()));
                assert(id_texts(r@) =~= id_texts(before).push(key));
            }
            i = i + 1;
        }
        proof {
            assert(self.links.keys().take(i as int) =~= self.links.keys());
            self.lemma_link_count(connection_id@, want);
        }
        r
    }

    /// What is known of a connection.
    pub fn get_connection(&self, connection_id: &SshConnectionId) -> (r: Option<
        SshConnectionSummary,
    >)
        requires
            self.wf(),
        ensures
            match r {
                Some(c) => self.connections().contains_key(connection_id@) && c
                    == self.connections()[connection_id@],
                None => !self.connections().contains_key(connection_id@),
            },
    {
        match self.connections.get(connection_id.as_str()) {
            Some(c) => Some(c.clone()),
            None => None,
        }
    }

    /// What is known of a mount.
    pub fn get_mount(&self, mount_id: &SshMountId) -> (r: Option<SshMountSummary>)
        requires
            self.wf(),
        ensures
            match r {
                Some(m) => self.mounts().contains_key(mount_id@) && m == self.mounts()[mount_id@],
                None => !self.mounts().contains_key(mount_id@),
            },
    {
        match self.mounts.get(mount_id.as_str()) {
            Some(m) => Some(m.clone()),
            None => None,
        }
    }

    /// What is known of a tunnel.
    pub fn get_tunnel(&self, tunnel_id: &SshTunnelId) -> (r: Option<SshTunnelSummary>)
        requires
            self.wf(),
        ensures
            match r {
                Some(t) => self.tunnels().contains_key(tunnel_id@) && t
                    == self.tunnels()[tunnel_id@],
                None => !self.tunnels().contains_key(tunnel_id@),
            },
    {
        match self.tunnels.get(tunnel_id.as_str()) {
            Some(t) => Some(t.clone()),
            None => None,
        }
    }

    /// Puts a connection in the registry. A known moment of last use is kept
    /// where the new summary has none, and the counts are taken anew.
    pub fn upsert_connection(&mut self, summary: SshConnectionSummary)
        requires
            old(self).wf(),
        ensures
            final(self).wf(),
            final(self).mounts() == old(self).mounts(),
            final(self).tunnels() == old(self).tunnels(),
            final(self).links() == old(self).links(),
            final(self).connections() == old(self).connections().insert(
                summary.connection_id@,
                recounted(
                    SshConnectionSummary {
                        last_used_at: if summary.last_used_at is None
                            && old(self).connections().contains_key(summary.connection_id@) {
                            old(self).connections()[summary.connection_id@].last_used_at
                        } else {
                            summary.last_used_at
                        },
                        ..summary
                    },
                    old(self).links(),
                    old(self).mounts(),
                ),
            ),
    {
        let ghost before = *self;
        let mut summary = summary;
        let connection_id = summary.connection_id.clone();
        match self.connections.get(connection_id.as_str()) {
            Some(existing) => {
                if summary.last_used_at.is_none() {
                    summary.last_used_at = existing.last_used_at;
                }
            },
            None => {},
        }
        let ghost stored = summary;
        let _ = self.connections.insert(connection_id.as_str().to_owned(), summary);
        let ghost middle = *self;
        proof {
            assert(middle.links() =~= before.links());
        }
        self.refresh_connection_counts(connection_id.as_str());
        proof {
            assert(self.connections@ =~= before.connections@.insert(
                connection_id@,
                recounted(stored, before.links(), before.mounts()),
            ));
            assert forall|k: Seq<char>| #[trigger] self.counted(k) by {
                assert(before.counted(k));
            }
        }
    }

    /// Sets the status of a connection, which counts as a use, and gives what is
    /// then known of it.
    pub fn mark_connection_status(
        &mut self,
        connection_id: &SshConnectionId,
        status: SshConnectionStatus,
    ) -> (r: Option<SshConnectionSummary>)
        requires
            old(self).wf(),
        ensures
            final(self).wf(),
            final(self).mounts() == old(self).mounts(),
            final(self).tunnels() == old(self).tunnels(),
            final(self).links() == old(self).links(),
            match r {
                Some(c) => {
                    &&& old(self).connections().contains_key(connection_id@)
                    &&& c == (SshConnectionSummary {
                        status,
                        last_used_at: c.last_used_at,
                        ..old(self).connections()[connection_id@]
                    })
                    &&& c.last_used_at is Some
                    &&& final(self).connections() == old(self).connections().insert(
                        connection_id@,
                        c,
                    )
                },
                None => {
                    &&& !old(self).connections().contains_key(connection_id@)
                    &&& final(self).connections() == old(self).connections()
                },
            },
    {
        let ghost before = *self;
        match self.connections.remove(connection_id.as_str()) {
            Some(connection) => {
                let mut connection = connection;
                connection.status = status;
                connection.last_used_at = Some(Timestamp::now());
                let r = connection.clone();
                let _ = self.connections.insert(connection_id.as_str().to_owned(), connection);
                proof {
                    assert(self.connections@ =~= before.connections@.insert(connection_id@, r));
                    assert(self.links() =~= before.links());
                    assert forall|k: Seq<char>| #[trigger] self.counted(k) by {
                        assert(before.counted(k));
                    }
                }
                Some(r)
            },
            None => {
                proof {
                    assert(self.connections@ =~= before.connections@);
                    assert(self.links() =~= before.links());
                    assert forall|k: Seq<char>| #[trigger] self.counted(k) by {
                        assert(before.counted(k));
                    }
                }
                None
            },
        }
    }

    /// Puts a mount in the registry, which counts as a use of its connection.
    /// The counts of the connection it was with before, and of the one it is
    /// with now, are taken anew.
    pub fn upsert_mount(&mut self, summary: SshMountSummary)
        requires
            old(self).wf(),
        ensures
            final(self).wf(),
            final(self).tunnels() == old(self).tunnels(),
            final(self).links() == old(self).links(),
            final(self).mounts() == old(self).mounts().insert(summary.mount_id@, summary),
            used_and_recounted(
                old(self).connections(),
                summary.connection_id@,
                final(self).links(),
                final(self).mounts(),
                final(self).connections(),
            ),
    {
        let ghost before = *self;
        let ghost m0 = summary.mount_id@;
        let connection_id = summary.connection_id.clone();
        let key = summary.mount_id.as_str().to_owned();
        let previous = self.mounts.insert(key, summary);
        let ghost links = before.links();
        let ghost mounts = before.mounts@.insert(m0, summary);
        assert(self.links() =~= links);
        let ghost prev_id = if previous is Some {
            previous->0.connection_id@
        } else {
            connection_id@
        };
        match previous {
            Some(p) => {
                self.refresh_connection_counts(p.connection_id.as_str());
            },
            None => {},
        }
        let ghost refreshed = *self;
        self.touch_unchecked(connection_id.as_str(), Timestamp::now());
        self.refresh_connection_counts(connection_id.as_str());
        proof {
            let id = connection_id@;
            assert forall|k: Seq<char>| k != id && k != prev_id implies #[trigger] active_mounts(
                mounts,
                k,
            ) == active_mounts(before.mounts@, k) by {
                assert(active_mounts(mounts, k) =~= active_mounts(before.mounts@, k));
            }
            assert forall|k: Seq<char>| #[trigger] self.counted(k) by {
                assert(before.counted(k));
                if k != id && k != prev_id {
                    assert(active_mounts(mounts, k) == active_mounts(before.mounts@, k));
                }
                if k == prev_id && k != id {
                    assert(refreshed.counted(k));
                }
            }
            let at = self.connections@[id].last_used_at;
            let target = recount(touched(before.connections@, id, at), links, mounts);
            assert forall|k: Seq<char>| #[trigger] self.connections@.contains_key(k) implies self.connections@[k]
                == target[k] by {
                assert(before.counted(k));
                assert(self.counted(k));
                if k != id && k != prev_id {
                    assert(active_mounts(mounts, k) == active_mounts(before.mounts@, k));
                }
            }
            assert(self.connections@ =~= target);
        }
    }

    /// Puts a tunnel in the registry, which counts as a use of its connection.
    pub fn upsert_tunnel(&mut self, summary: SshTunnelSummary)
        requires
            old(self).wf(),
        ensures
            final(self).wf(),
            final(self).mounts() == old(self).mounts(),
            final(self).links() == old(self).links(),
            final(self).tunnels() == old(self).tunnels().insert(summary.tunnel_id@, summary),
            used_and_recounted(
                old(self).connections(),
                summary.connection_id@,
                old(self).links(),
                old(self).mounts(),
                final(self).connections(),
            ),
    {
        let ghost before = *self;
        let connection_id = summary.connection_id.clone();
        let key = summary.tunnel_id.as_str().to_owned();
        let _ = self.tunnels.insert(key, summary);
        proof {
            assert(self.links() =~= before.links());
            assert forall|k: Seq<char>| #[trigger] self.counted(k) by {
                assert(before.counted(k));
            }
        }
        self.touch_connection(&connection_id);
    }

    /// Links a session to a connection and says whether that is new. A new link
    /// counts as a use of the connection.
    pub fn link_session(&mut self, connection_id: &SshConnectionId, session_id: &SessionId) -> (r:
        bool)
        requires
            old(self).wf(),
        ensures
            final(self).wf(),
            final(self).mounts() == old(self).mounts(),
            final(self).tunnels() == old(self).tunnels(),
            final(self).links() == old(self).links().insert(session_id@, connection_id@),
            r == !linked(old(self).links(), connection_id@).contains(session_id@),
            if r {
                used_and_recounted(
                    old(self).connections(),
                    connection_id@,
                    final(self).links(),
                    final(self).mounts(),
                    final(self).connections(),
                )
            } else {
                final(self).connections() == old(self).connections()
            },
    {
        let ghost before = *self;
        let previous = self.links.insert(
            session_id.as_str().to_owned(),
            connection_id.as_str().to_owned(),
        );
        let ghost links = before.links().insert(session_id@, connection_id@);
        assert(self.links() =~= links);
        let mut changed = true;
        let ghost prev_id = if previous is Some {
            previous->0@
        } else {
            connection_id@
        };
        match previous {
            Some(p) => {
                if same(p.as_str(), connection_id.as_str()) {
                    changed = false;
                } else {
                    self.refresh_connection_counts(p.as_str());
                }
            },
            None => {},
        }
        let ghost refreshed = *self;
        if changed {
            self.touch_unchecked(connection_id.as_str(), Timestamp::now());
            self.refresh_connection_counts(connection_id.as_str());
            proof {
                let id = connection_id@;
                assert forall|k: Seq<char>| k != id && k != prev_id implies #[trigger] linked(
                    links,
                    k,
                ) == linked(before.links(), k) by {
                    assert(linked(links, k) =~= linked(before.links(), k));
                }
                assert forall|k: Seq<char>| #[trigger] self.counted(k) by {
                    assert(before.counted(k));
                    if k != id && k != prev_id {
                        assert(linked(links, k) == linked(before.links(), k));
                    }
                    if k == prev_id && k != id {
                        assert(refreshed.counted(k));
                    }
                }
                let at = self.connections@[id].last_used_at;
                let target = recount(touched(before.connections@, id, at), links, before.mounts@);
                assert forall|k: Seq<char>| #[trigger]
                    self.connections@.contains_key(k) implies self.connections@[k] == target[k] by {
                    assert(before.counted(k));
                    assert(self.counted(k));
                    if k != id && k != prev_id {
                        assert(linked(links, k) == linked(before.links(), k));
                    }
                }
                assert(self.connections@ =~= target);
            }
        } else {
            proof {
                assert(links =~= before.links());
                assert forall|k: Seq<char>| #[trigger] self.counted(k) by {
                    assert(before.counted(k));
                }
            }
        }
        changed
    }

    /// Links a session to a connection and gives what is then known of the
    /// connection. The link stays even where there is no such connection.
    pub fn track_session(&mut self, connection_id: &SshConnectionId, session_id: SessionId) -> (r:
        Result<SshConnectionSummary, Failure>)
        requires
            old(self).wf(),
        ensures
            final(self).wf(),
            final(self).mounts() == old(self).mounts(),
            final(self).tunnels() == old(self).tunnels(),
            final(self).links() == old(self).links().insert(session_id@, connection_id@),
            if linked(old(self).links(), connection_id@).contains(session_id@) {
                final(self).connections() == old(self).connections()
            } else {
                used_and_recounted(
                    old(self).connections(),
                    connection_id@,
                    final(self).links(),
                    final(self).mounts(),
                    final(self).connections(),
                )
            },
            match r {
                Ok(c) => old(self).connections().contains_key(connection_id@) && c
                    == final(self).connections()[connection_id@],
                Err(e) => !old(self).connections().contains_key(connection_id@) && e@
                    == connection_not_found_text(connection_id@),
            },
    {
        let _ = self.link_session(connection_id, &session_id);
        match self.get_connection(connection_id) {
            Some(c) => Ok(c),
            None => Err(ssh_connection_not_found(connection_id)),
        }
    }

    /// Takes the link of a session away and gives the connection it was linked
    /// to, of which this counts as a use.
    pub fn unlink_session(&mut self, session_id: &SessionId) -> (r: Option<SshConnectionId>)
        requires
            old(self).wf(),
        ensures
            final(self).wf(),
            final(self).mounts() == old(self).mounts(),
            final(self).tunnels() == old(self).tunnels(),
            final(self).links() == old(self).links().remove(session_id@),
            match r {
                Some(c) => {
                    &&& old(self).links().contains_key(session_id@)
                    &&& c@ == old(self).links()[session_id@]
                    &&& used_and_recounted(
                        old(self).connections(),
                        c@,
                        final(self).links(),
                        final(self).mounts(),
                        final(self).connections(),
                    )
                },
                None => {
                    &&& !old(self).links().contains_key(session_id@)
                    &&& final(self).connections() == old(self).connections()
                },
            },
    {
        let ghost before = *self;
        let ghost links = before.links().remove(session_id@);
        match self.links.remove(session_id.as_str()) {
            None => {
                proof {
                    assert(self.links() =~= links);
                    assert(links =~= before.links());
                    assert forall|k: Seq<char>| #[trigger] self.counted(k) by {
                        assert(before.counted(k));
                    }
                }
                None
            },
            Some(connection) => {
                assert(self.links() =~= links);
                self.touch_unchecked(connection.as_str(), Timestamp::now());
                self.refresh_connection_counts(connection.as_str());
                proof {
                    let id = connection@;
                    assert forall|k: Seq<char>| k != id implies #[trigger] linked(links, k)
                        == linked(before.links(), k) by {
                        assert(linked(links, k) =~= linked(before.links(), k));
                    }
                    assert forall|k: Seq<char>| #[trigger] self.counted(k) by {
                        assert(before.counted(k));
                        if k != id {
                            assert(linked(links, k) == linked(before.links(), k));
                        }
                    }
                    let at = self.connections@[id].last_used_at;
                    let target = recount(
                        touched(before.connections@, id, at),
                        links,
                        before.mounts@,
                    );
                    assert forall|k: Seq<char>| #[trigger]
                        self.connections@.contains_key(k) implies self.connections@[k]
                        == target[k] by {
                        assert(before.counted(k));
                        assert(self.counted(k));
                        if k != id {
                            assert(linked(links, k) == linked(before.links(), k));
                        }
                    }
                    assert(self.connections@ =~= target);
                }
                Some(SshConnectionId::of(connection.as_str()))
            },
        }
    }

    /// Takes the link of a session away and gives what is then known of the
    /// connection that is asked about.
    pub fn untrack_session(&mut self, connection_id: &SshConnectionId, session_id: &SessionId) -> (r:
        Result<SshConnectionSummary, Failure>)
        requires
            old(self).wf(),
        ensures
            final(self).wf(),
            final(self).mounts() == old(self).mounts(),
            final(self).tunnels() == old(self).tunnels(),
            final(self).links() == old(self).links().remove(session_id@),
            if old(self).links().contains_key(session_id@) {
                used_and_recounted(
                    old(self).connections(),
                    old(self).links()[session_id@],
                    final(self).links(),
                    final(self).mounts(),
                    final(self).connections(),
                )
            } else {
                final(self).connections() == old(self).connections()
            },
            match r {
                Ok(c) => old(self).connections().contains_key(connection_id@) && c
                    == final(self).connections()[connection_id@],
                Err(e) => !old(self).connections().contains_key(connection_id@) && e@
                    == connection_not_found_text(connection_id@),
            },
    {
        let _ = self.unlink_session(session_id);
        match self.get_connection(connection_id) {
            Some(c) => Ok(c),
            None => Err(ssh_connection_not_found(connection_id)),
        }
    }

    /// Takes away the links of the listed sessions.
    fn drop_links(&mut self, sessions: &Vec<SessionId>, connection_id: &str)
        requires
            old(self).keyed(),
            id_texts(sessions@).to_set() == linked(old(self).links(), connection_id@),
        ensures
            final(self).keyed(),
            final(self).connections() == old(self).connections(),
            final(self).mounts() == old(self).mounts(),
            final(self).tunnels() == old(self).tunnels(),
            final(self).links() == without_links(old(self).links(), connection_id@),
    {
        let ghost before = *self;
        let ghost ids = id_texts(sessions@);
        let mut i: usize = 0;
        while i < sessions.len()
            invariant
                self.keyed(),
                i <= sessions@.len(),
                ids == id_texts(sessions@),
                self.connections@ == before.connections@,
                self.mounts@ == before.mounts@,
                self.tunnels@ == before.tunnels@,
                forall|s: Seq<char>| #[trigger]
                    self.links@.contains_key(s) <==> before.links@.contains_key(s) && !ids.take(
                        i as int,
                    ).contains(s),
                forall|s: Seq<char>| #[trigger]
                    self.links@.contains_key(s) ==> self.links@[s] == before.links@[s],
            decreases sessions@.len() - i,
        {
            let ghost middle = self.links@;
            let _ = self.links.remove(sessions[i].as_str());
            proof {
                let id = ids[i as int];
                assert(ids.take(i + 1) =~= ids.take(i as int).push(id));
                assert forall|s: Seq<char>| #[trigger]
                    self.links@.contains_key(s) <==> before.links@.contains_key(s) && !ids.take(
                        i + 1,
                    ).contains(s) by {
                    if ids.take(i as int).contains(s) {
                        let a = ids.take(i as int).index_of(s);
                        assert(ids.take(i + 1)[a] == s);
                    }
                    if s == id {
                        assert(ids.take(i + 1)[i as int] == s);
                    }
                    assert(middle.contains_key(s) <==> before.links@.contains_key(s) && !ids.take(
                        i as int,
                    ).contains(s));
                }
            }
            i = i + 1;
        }
        proof {
            assert(ids.take(i as int) =~= ids);
            assert forall|s: Seq<char>| self.links().contains_key(s) <==> without_links(
                before.links(),
                connection_id@,
            ).contains_key(s) by {
                assert(ids.to_set().contains(s) == linked(before.links(), connection_id@).contains(
                    s,
                ));
                assert(self.links@.contains_key(s) == self.links().contains_key(s));
            }
            assert(self.links() =~= without_links(before.links(), connection_id@));
        }
    }

    /// Takes away the listed mounts.
    fn drop_mounts(&mut self, mounts: &Vec<SshMountId>, connection_id: &str)
        requires
            old(self).keyed(),
            mount_id_texts(mounts@).to_set() == mounted(old(self).mounts(), connection_id@),
        ensures
            final(self).keyed(),
            final(self).connections() == old(self).connections(),
            final(self).tunnels() == old(self).tunnels(),
            final(self).links() == old(self).links(),
            final(self).mounts() == without_mounts(old(self).mounts(), connection_id@),
    {
        let ghost before = *self;
        let ghost ids = mount_id_texts(mounts@);
        let mut i: usize = 0;
        while i < mounts.len()
            invariant
                self.keyed(),
                i <= mounts@.len(),
                ids == mount_id_texts(mounts@),
                self.connections@ == before.connections@,
                self.tunnels@ == before.tunnels@,
                self.links@ == before.links@,
                forall|s: Seq<char>| #[trigger]
                    self.mounts@.contains_key(s) <==> before.mounts@.contains_key(s) && !ids.take(
                        i as int,
                    ).contains(s),
                forall|s: Seq<char>| #[trigger]
                    self.mounts@.contains_key(s) ==> self.mounts@[s] == before.mounts@[s],
            decreases mounts@.len() - i,
        {
            let ghost middle = self.mounts@;
            let _ = self.mounts.remove(mounts[i].as_str());
            proof {
                let id = ids[i as int];
                assert(ids.take(i + 1) =~= ids.take(i as int).push(id));
                assert forall|s: Seq<char>| #[trigger]
                    self.mounts@.contains_key(s) <==> before.mounts@.contains_key(s) && !ids.take(
                        i + 1,
                    ).contains(s) by {
                    if ids.take(i as int).contains(s) {
                        let a = ids.take(i as int).index_of(s);
                        assert(ids.take(i + 1)[a] == s);
                    }
                    if s == id {
                        assert(ids.take(i + 1)[i as int] == s);
                    }
                    assert(middle.contains_key(s) <==> before.mounts@.contains_key(s) && !ids.take(
                        i as int,
                    ).contains(s));
                }
            }
            i = i + 1;
        }
        proof {
            assert(ids.take(i as int) =~= ids);
            assert forall|s: Seq<char>| self.mounts@.contains_key(s) <==> without_mounts(
                before.mounts@,
                connection_id@,
            ).contains_key(s) by {
                assert(ids.to_set().contains(s) == mounted(before.mounts@, connection_id@).contains(
                    s,
                ));
            }
            assert(self.mounts@ =~= without_mounts(before.mounts@, connection_id@));
            assert(self.links() =~= before.links());
        }
    }

    /// Takes away all links of a connection, of which this counts as a use, and
    /// gives the sessions in order.
    pub fn remove_sessions_for_connection(&mut self, connection_id: &SshConnectionId) -> (r: Vec<
        SessionId,
    >)
        requires
            old(self).wf(),
        ensures
            final(self).wf(),
            final(self).mounts() == old(self).mounts(),
            final(self).tunnels() == old(self).tunnels(),
            lists_in_order(id_texts(r@), linked(old(self).links(), connection_id@)),
            final(self).links() == without_links(old(self).links(), connection_id@),
            used_and_recounted(
                old(self).connections(),
                connection_id@,
                final(self).links(),
                final(self).mounts(),
                final(self).connections(),
            ),
    {
        let ghost before = *self;
        let removed = self.list_sessions_for_connection(connection_id);
        self.drop_links(&removed, connection_id.as_str());
        let ghost links = without_links(before.links(), connection_id@);
        self.touch_unchecked(connection_id.as_str(), Timestamp::now());
        self.refresh_connection_counts(connection_id.as_str());
        proof {
            let id = connection_id@;
            assert forall|k: Seq<char>| k != id implies #[trigger] linked(links, k) == linked(
                before.links(),
                k,
            ) by {
                assert(linked(links, k) =~= linked(before.links(), k));
            }
            assert forall|k: Seq<char>| #[trigger] self.counted(k) by {
                assert(before.counted(k));
                if k != id {
                    assert(linked(links, k) == linked(before.links(), k));
                }
            }
            let at = self.connections@[id].last_used_at;
            let target = recount(touched(before.connections@, id, at), links, before.mounts@);
            assert forall|k: Seq<char>| #[trigger] self.connections@.contains_key(k) implies self.connections@[k]
                == target[k] by {
                assert(before.counted(k));
                assert(self.counted(k));
                if k != id {
                    assert(linked(links, k) == linked(before.links(), k));
                }
            }
            assert(self.connections@ =~= target);
        }
        removed
    }

    /// Takes a connection away with its mounts and the links to it.
    pub fn remove_connection(&mut self, connection_id: &SshConnectionId) -> (r: Option<
        SshConnectionSummary,
    >)
        requires
            old(self).wf(),
        ensures
            final(self).wf(),
            final(self).tunnels() == old(self).tunnels(),
            final(self).links() == without_links(old(self).links(), connection_id@),
            final(self).mounts() == without_mounts(old(self).mounts(), connection_id@),
            final(self).connections() == old(self).connections().remove(connection_id@),
            match r {
                Some(c) => old(self).connections().contains_key(connection_id@) && c
                    == old(self).connections()[connection_id@],
                None => !old(self).connections().contains_key(connection_id@),
            },
    {
        let ghost before = *self;
        let sessions = self.list_sessions_for_connection(connection_id);
        let mounts = self.mount_ids_of(connection_id.as_str());
        self.drop_links(&sessions, connection_id.as_str());
        self.drop_mounts(&mounts, connection_id.as_str());
        let ghost middle = *self;
        let r = self.connections.remove(connection_id.as_str());
        proof {
            assert(self.links() =~= middle.links());
            assert forall|k: Seq<char>| #[trigger] self.counted(k) by {
                assert(before.counted(k));
                if k != connection_id@ {
                    assert(linked(self.links(), k) =~= linked(before.links(), k));
                    assert(active_mounts(self.mounts@, k) =~= active_mounts(before.mounts@, k));
                }
            }
        }
        r
    }

    /// Takes a mount away, which counts as a use of its connection.
    pub fn remove_mount(&mut self, mount_id: &SshMountId) -> (r: Option<SshMountSummary>)
        requires
            old(self).wf(),
        ensures
            final(self).wf(),
            final(self).tunnels() == old(self).tunnels(),
            final(self).links() == old(self).links(),
            final(self).mounts() == old(self).mounts().remove(mount_id@),
            match r {
                Some(m) => {
                    &&& old(self).mounts().contains_key(mount_id@)
                    &&& m == old(self).mounts()[mount_id@]
                    &&& used_and_recounted(
                        old(self).connections(),
                        m.connection_id@,
                        final(self).links(),
                        final(self).mounts(),
                        final(self).connections(),
                    )
                },
                None => {
                    &&& !old(self).mounts().contains_key(mount_id@)
                    &&& final(self).connections() == old(self).connections()
                },
            },
    {
        let ghost before = *self;
        let ghost mounts = before.mounts@.remove(mount_id@);
        let ghost links = before.links();
        match self.mounts.remove(mount_id.as_str()) {
            None => {
                proof {
                    assert(mounts =~= before.mounts@);
                    assert(self.links() =~= before.links());
                    assert forall|k: Seq<char>| #[trigger] self.counted(k) by {
                        assert(before.counted(k));
                    }
                }
                None
            },
            Some(mount) => {
                assert(self.links() =~= before.links());
                self.touch_unchecked(mount.connection_id.as_str(), Timestamp::now());
                self.refresh_connection_counts(mount.connection_id.as_str());
                proof {
                    let id = mount.connection_id@;
                    assert forall|k: Seq<char>| k != id implies #[trigger] active_mounts(mounts, k)
                        == active_mounts(before.mounts@, k) by {
                        assert(active_mounts(mounts, k) =~= active_mounts(before.mounts@, k));
                    }
                    assert forall|k: Seq<char>| #[trigger] self.counted(k) by {
                        assert(before.counted(k));
                        if k != id {
                            assert(active_mounts(mounts, k) == active_mounts(before.mounts@, k));
                        }
                    }
                    let at = self.connections@[id].last_used_at;
                    let target = recount(touched(before.connections@, id, at), links, mounts);
                    assert forall|k: Seq<char>| #[trigger]
                        self.connections@.contains_key(k) implies self.connections@[k]
                        == target[k] by {
                        assert(before.counted(k));
                        assert(self.counted(k));
                        if k != id {
                            assert(active_mounts(mounts, k) == active_mounts(before.mounts@, k));
                        }
                    }
                    assert(self.connections@ =~= target);
                }
                Some(mount)
            },
        }
    }

    /// Takes all mounts of a connection away, which counts as a use of it, and
    /// says how many they were.
    pub fn remove_mounts_for_connection(&mut self, connection_id: &SshConnectionId) -> (r: usize)
        requires
            old(self).wf(),
        ensures
            final(self).wf(),
            final(self).tunnels() == old(self).tunnels(),
            final(self).links() == old(self).links(),
            final(self).mounts() == without_mounts(old(self).mounts(), connection_id@),
            r == mounted(old(self).mounts(), connection_id@).len(),
            used_and_recounted(
                old(self).connections(),
                connection_id@,
                final(self).links(),
                final(self).mounts(),
                final(self).connections(),
            ),
    {
        let ghost before = *self;
        let removed = self.mount_ids_of(connection_id.as_str());
        proof {
            lemma_sorted_distinct(mount_id_texts(removed@));
            mount_id_texts(removed@).unique_seq_to_set();
        }
        self.drop_mounts(&removed, connection_id.as_str());
        let ghost links = before.links();
        let ghost mounts = without_mounts(before.mounts@, connection_id@);
        self.touch_unchecked(connection_id.as_str(), Timestamp::now());
        self.refresh_connection_counts(connection_id.as_str());
        proof {
            let id = connection_id@;
            assert forall|k: Seq<char>| k != id implies #[trigger] active_mounts(mounts, k)
                == active_mounts(before.mounts@, k) by {
                assert(active_mounts(mounts, k) =~= active_mounts(before.mounts@, k));
            }
            assert forall|k: Seq<char>| #[trigger] self.counted(k) by {
                assert(before.counted(k));
                if k != id {
                    assert(active_mounts(mounts, k) == active_mounts(before.mounts@, k));
                }
            }
            let at = self.connections@[id].last_used_at;
            let target = recount(touched(before.connections@, id, at), links, mounts);
            assert forall|k: Seq<char>| #[trigger] self.connections@.contains_key(k) implies self.connections@[k]
                == target[k] by {
                assert(before.counted(k));
                assert(self.counted(k));
                if k != id {
                    assert(active_mounts(mounts, k) == active_mounts(before.mounts@, k));
                }
            }
            assert(self.connections@ =~= target);
        }
        removed.len()
    }

    /// How many sessions and mounts of a connection are active.
    pub fn active_resource_counts(&self, connection_id: &SshConnectionId) -> (r: Option<
        SshConnectionResourceCounts,
    >)
        requires
            self.wf(),
        ensures
            match r {
                Some(n) => {
                    &&& self.connections().contains_key(connection_id@)
                    &&& n.active_session_count == linked(self.links(), connection_id@).len()
                    &&& n.active_mount_count == active_mounts(self.mounts(), connection_id@).len()
                },
                None => !self.connections().contains_key(connection_id@),
            },
    {
        if !self.connections.contains(connection_id.as_str()) {
            return None;
        }
        Some(
            SshConnectionResourceCounts {
                active_session_count: self.count_links(connection_id.as_str()),
                active_mount_count: self.count_active_mounts(connection_id.as_str()),
            },
        )
    }

    /// What is known of the connection that a session runs over.
    pub fn connection_of_session(&self, session_id: &SessionId) -> (r: Option<SshConnectionSummary>)
        requires
            self.wf(),
        ensures
            match r {
                Some(c) => {
                    &&& self.links().contains_key(session_id@)
                    &&& self.connections().contains_key(self.links()[session_id@])
                    &&& c == self.connections()[self.links()[session_id@]]
                },
                None => !(self.links().contains_key(session_id@)
                    && self.connections().contains_key(self.links()[session_id@])),
            },
    {
        match self.links.get(session_id.as_str()) {
            Some(connection) => match self.connections.get(connection.as_str()) {
                Some(c) => Some(c.clone()),
                None => None,
            },
            None => None,
        }
    }

    /// Whether a known connection has sessions linked to it.
    pub fn has_active_sessions(&self, connection_id: &SshConnectionId) -> (r: bool)
        requires
            self.wf(),
        ensures
            r == (self.connections().contains_key(connection_id@) && linked(
                self.links(),
                connection_id@,
            ).len() > 0),
    {
        match self.active_resource_counts(connection_id) {
            Some(counts) => counts.active_session_count > 0,
            None => false,
        }
    }

    /// Whether a known connection has active mounts.
    pub fn has_active_mounts(&self, connection_id: &SshConnectionId) -> (r: bool)
        requires
            self.wf(),
        ensures
            r == (self.connections().contains_key(connection_id@) && active_mounts(
                self.mounts(),
                connection_id@,
            ).len() > 0),
    {
        match self.active_resource_counts(connection_id) {
            Some(counts) => counts.active_mount_count > 0,
            None => false,
        }
    }

    /// Whether a known connection has sessions or active mounts.
    pub fn has_active_resources(&self, connection_id: &SshConnectionId) -> (r: bool)
        requires
            self.wf(),
        ensures
            r == (self.connections().contains_key(connection_id@) && (linked(
                self.links(),
                connection_id@,
            ).len() > 0 || active_mounts(self.mounts(), connection_id@).len() > 0)),
    {
        match self.active_resource_counts(connection_id) {
            Some(counts) => counts.has_active_resources(),
            None => false,
        }
    }

    /// What belongs to a connection, in order.
    pub fn connection_relations(&self, connection_id: &SshConnectionId) -> (r: Result<
        SshConnectionRelations,
        Failure,
    >)
        requires
            self.wf(),
        ensures
            match r {
                Ok(rel) => {
                    &&& self.connections().contains_key(connection_id@)
                    &&& lists_in_order(
                        id_texts(rel.session_ids@),
                        linked(self.links(), connection_id@),
                    )
                    &&& lists_in_order(
                        mount_id_texts(rel.mount_ids@),
                        mounted(self.mounts(), connection_id@),
                    )
                },
                Err(e) => !self.connections().contains_key(connection_id@) && e@
                    == connection_not_found_text(connection_id@),
            },
    {
        if !self.connections.contains(connection_id.as_str()) {
            return Err(ssh_connection_not_found(connection_id));
        }
        Ok(
            SshConnectionRelations {
                session_ids: self.list_sessions_for_connection(connection_id),
                mount_ids: self.mount_ids_of(connection_id.as_str()),
            },
        )
    }

    /// A connection may be ended without force only where no session and no
    /// active mount is left.
    pub fn ensure_disconnect_allowed(&self, connection_id: &SshConnectionId) -> (r: Result<
        (),
        Failure,
    >)
        requires
            self.wf(),
        ensures
            match disconnect_refusal(
                self.connections().contains_key(connection_id@),
                connection_id@,
                linked(self.links(), connection_id@).len(),
                active_mounts(self.mounts(), connection_id@).len(),
            ) {
                None => r is Ok,
                Some(text) => r matches Err(e) && e@ == text,
            },
    {
        let counts = match self.active_resource_counts(connection_id) {
            Some(counts) => counts,
            None => {
                return Err(ssh_connection_not_found(connection_id));
            },
        };
        if counts.active_session_count > 0 {
            let n = decimal(counts.active_session_count as u64);
            return Err(
                Failure::new(
                    cat4(
                        "ssh connection still has active sessions: connection_id=",
                        connection_id.as_str(),
                        " active_session_count=",
                        n.as_str(),
                    ),
                ),
            );
        }
        if counts.active_mount_count > 0 {
            let n = decimal(counts.active_mount_count as u64);
            return Err(
                Failure::new(
                    cat4(
                        "ssh connection still has active mounts: connection_id=",
                        connection_id.as_str(),
                        " active_mount_count=",
                        n.as_str(),
                    ),
                ),
            );
        }
        Ok(())
    }

    /// Puts a connection that is about to be made in the registry, under a new
    /// identifier.
    pub fn create_placeholder_connection(&mut self, target: SshTarget) -> (r: SshConnectionSummary)
        requires
            old(self).wf(),
        ensures
            final(self).wf(),
            final(self).mounts() == old(self).mounts(),
            final(self).tunnels() == old(self).tunnels(),
            final(self).links() == old(self).links(),
            is_new_id("sshconn_"@, r.connection_id@),
            r.target == target,
            r.target_summary@ == target_summary(target@),
            r == (SshConnectionSummary {
                connection_id: r.connection_id,
                title: None,
                description: None,
                status: SshConnectionStatus::Connecting,
                target,
                target_summary: r.target_summary,
                auth_kind: None,
                started_at: r.started_at,
                last_used_at: None,
                active_session_count: 0,
                active_mount_count: 0,
                metadata: r.metadata,
            }),
            r.metadata@.len() == 0,
            final(self).connections() == old(self).connections().insert(
                r.connection_id@,
                recounted(
                    SshConnectionSummary {
                        last_used_at: if old(self).connections().contains_key(r.connection_id@) {
                            old(self).connections()[r.connection_id@].last_used_at
                        } else {
                            None
                        },
                        ..r
                    },
                    old(self).links(),
                    old(self).mounts(),
                ),
            ),
    {
        let summary = SshConnectionSummary {
            connection_id: SshConnectionId::new(),
            title: None,
            description: None,
            status: SshConnectionStatus::Connecting,
            target_summary: target.summary(),
            target,
            auth_kind: None,
            started_at: Timestamp::now(),
            last_used_at: None,
            active_session_count: 0,
            active_mount_count: 0,
            metadata: String::new(),
        };
        self.upsert_connection(summary.clone());
        summary
    }

    /// Puts a mount that is about to be made in the registry, under a new
    /// identifier.
    pub fn create_placeholder_mount(
        &mut self,
        connection_id: &SshConnectionId,
        remote_path: String,
        local_path: String,
    ) -> (r: Result<SshMountSummary, Failure>)
        requires
            old(self).wf(),
        ensures
            final(self).wf(),
            final(self).tunnels() == old(self).tunnels(),
            final(self).links() == old(self).links(),
            match r {
                Ok(m) => {
                    &&& old(self).connections().contains_key(connection_id@)
                    &&& is_new_id("sshmnt_"@, m.mount_id@)
                    &&& m == (SshMountSummary {
                        mount_id: m.mount_id,
                        title: None,
                        description: None,
                        connection_id: *connection_id,
                        target_summary: old(self).connections()[connection_id@].target_summary,
                        status: SshMountStatus::Mounting,
                        backend: SshMountBackend::Sshfs,
                        local_path,
                        remote_path,
                        read_only: false,
                        mounted_at: m.mounted_at,
                        last_error: None,
                    })
                    &&& final(self).mounts() == old(self).mounts().insert(m.mount_id@, m)
                    &&& used_and_recounted(
                        old(self).connections(),
                        connection_id@,
                        final(self).links(),
                        final(self).mounts(),
                        final(self).connections(),
                    )
                },
                Err(e) => {
                    &&& !old(self).connections().contains_key(connection_id@)
                    &&& e@ == connection_not_found_text(connection_id@)
                    &&& *final(self) == *old(self)
                },
            },
    {
        let connection = match self.get_connection(connection_id) {
            Some(connection) => connection,
            None => {
                return Err(ssh_connection_not_found(connection_id));
            },
        };
        let summary = SshMountSummary {
            mount_id: SshMountId::new(),
            title: None,
            description: None,
            connection_id: connection_id.clone(),
            target_summary: connection.target_summary,
            status: SshMountStatus::Mounting,
            backend: SshMountBackend::Sshfs,
            local_path,
            remote_path,
            read_only: false,
            mounted_at: Timestamp::now(),
            last_error: None,
        };
        self.upsert_mount(summary.clone());
        Ok(summary)
    }
}

/// Why a connection may not be ended without force, if it may not.
pub open spec fn disconnect_refusal(
    known: bool,
    id: Seq<char>,
    sessions: nat,
    mounts: nat,
) -> Option<Seq<char>> {
    if !known {
        Some(connection_not_found_text(id))
    } else if sessions > 0 {
        Some(
            "ssh connection still has active sessions: connection_id="@ + id
                + " active_session_count="@ + decimal_text(sessions),
        )
    } else if mounts > 0 {
        Some(
            "ssh connection still has active mounts: connection_id="@ + id
                + " active_mount_count="@ + decimal_text(mounts),
        )
    } else {
        None
    }
}

/// A connection that is taken out leaves no session and no mount behind, and those
/// of other connections stay.
pub proof fn law_removed_connection_leaves_nothing(
    links: Map<Seq<char>, Seq<char>>,
    mounts: Map<Seq<char>, SshMountSummary>,
    connection: Seq<char>,
    other: Seq<char>,
)
    requires
        other != connection,
    ensures
        linked(without_links(links, connection), connection) == Set::<Seq<char>>::empty(),
        mounted(without_mounts(mounts, connection), connection) == Set::<Seq<char>>::empty(),
        linked(without_links(links, connection), other) == linked(links, other),
        mounted(without_mounts(mounts, connection), other) == mounted(mounts, other),
{
    assert(linked(without_links(links, connection), connection) =~= Set::<Seq<char>>::empty());
    assert(mounted(without_mounts(mounts, connection), connection) =~= Set::<Seq<char>>::empty());
    assert(linked(without_links(links, connection), other) =~= linked(links, other));
    assert(mounted(without_mounts(mounts, connection), other) =~= mounted(mounts, other));
}

/// A session runs over one connection at a time: linked to one, it belongs to that
/// one and to no other, and the other sessions stay where they were.
pub proof fn law_session_runs_over_one_connection(
    links: Map<Seq<char>, Seq<char>>,
    session: Seq<char>,
    connection: Seq<char>,
    other: Seq<char>,
)
    requires
        other != connection,
    ensures
        linked(links.insert(session, connection), connection) == linked(links, connection).insert(
            session,
        ),
        linked(links.insert(session, connection), other) == linked(links, other).remove(session),
{
    assert(linked(links.insert(session, connection), connection) =~= linked(
        links,
        connection,
    ).insert(session));
    assert(linked(links.insert(session, connection), other) =~= linked(links, other).remove(
        session,
    ));
}

/// Taking out a link that was just put in gives back the links as they were.
pub proof fn law_unlinking_undoes_linking(
    links: Map<Seq<char>, Seq<char>>,
    session: Seq<char>,
    connection: Seq<char>,
)
    requires
        !links.contains_key(session),
    ensures
        links.insert(session, connection).remove(session) == links,
{
    assert(links.insert(session, connection).remove(session) =~= links);
}

/// A mount that is neither there nor on its way does not keep a connection from
/// being ended.
pub proof fn law_gone_mount_does_not_count(
    mounts: Map<Seq<char>, SshMountSummary>,
    m: SshMountSummary,
    connection: Seq<char>,
)
    requires
        m.status == SshMountStatus::Unmounted || m.status == SshMountStatus::Failed,
    ensures
        active_mounts(mounts.insert(m.mount_id@, m), connection) == active_mounts(
            mounts,
            connection,
        ).remove(m.mount_id@),
{
    assert(active_mounts(mounts.insert(m.mount_id@, m), connection) =~= active_mounts(
        mounts,
        connection,
    ).remove(m.mount_id@));
}

/// The counts of a connection are those of its sessions, and of its mounts that are being
/// made, are there or are being taken away; counting changes nothing else, and neither
/// does it change which connections there are.
pub proof fn law_counting_counts_what_belongs(
    connections: Map<Seq<char>, SshConnectionSummary>,
    links: Map<Seq<char>, Seq<char>>,
    mounts: Map<Seq<char>, SshMountSummary>,
    id: Seq<char>,
    k: Seq<char>,
)
    ensures
        linked(links, id).contains(k) <==> links.contains_key(k) && links[k] == id,
        mounted(mounts, id).contains(k) <==> mounts.contains_key(k) && mounts[k].connection_id@
            == id,
        active_mounts(mounts, id).contains(k) <==> mounts.contains_key(k)
            && mounts[k].connection_id@ == id && (mounts[k].status == SshMountStatus::Mounting
            || mounts[k].status == SshMountStatus::Mounted || mounts[k].status
            == SshMountStatus::Unmounting),
        recount(connections, links, mounts).contains_key(id) <==> connections.contains_key(id),
        connections.contains_key(id) ==> {
            let c = recount(connections, links, mounts)[id];
            let own = connections[id].connection_id@;
            &&& linked(links, own).len() <= usize::MAX ==> c.active_session_count == linked(
                links,
                own,
            ).len()
            &&& active_mounts(mounts, own).len() <= usize::MAX ==> c.active_mount_count
                == active_mounts(mounts, own).len()
            &&& c == (SshConnectionSummary {
                active_session_count: c.active_session_count,
                active_mount_count: c.active_mount_count,
                ..connections[id]
            })
        },
{
}

/// A use of a connection sets the moment of its last use and nothing else but counts, and
/// no other connection is touched.
pub proof fn law_use_is_noted_of_one_connection(
    before: Map<Seq<char>, SshConnectionSummary>,
    id: Seq<char>,
    links: Map<Seq<char>, Seq<char>>,
    mounts: Map<Seq<char>, SshMountSummary>,
    after: Map<Seq<char>, SshConnectionSummary>,
    k: Seq<char>,
)
    requires
        used_and_recounted(before, id, links, mounts, after),
    ensures
        after.contains_key(k) <==> before.contains_key(k),
        before.contains_key(id) ==> after[id].last_used_at is Some,
        before.contains_key(k) ==> after[k] == (SshConnectionSummary {
            last_used_at: after[k].last_used_at,
            active_session_count: after[k].active_session_count,
            active_mount_count: after[k].active_mount_count,
            ..before[k]
        }),
        before.contains_key(k) && k != id ==> after[k].last_used_at == before[k].last_used_at,
{
    let t = touched(before, id, after[id].last_used_at);
    assert(t.dom() =~= before.dom());
    assert(after.contains_key(k) <==> t.contains_key(k));
}

/// A connection may be ended without force exactly where it is known, no session is
/// linked to it and no mount of it is active.
pub proof fn law_busy_connections_are_not_ended(
    known: bool,
    id: Seq<char>,
    sessions: nat,
    mounts: nat,
)
    ensures
        disconnect_refusal(known, id, sessions, mounts) is None <==> known && sessions == 0
            && mounts == 0,
{
}

/// Taking out a connection takes out its links and its mounts, and no others.
pub proof fn law_only_what_belongs_is_taken_out(
    links: Map<Seq<char>, Seq<char>>,
    mounts: Map<Seq<char>, SshMountSummary>,
    id: Seq<char>,
    k: Seq<char>,
)
    ensures
        without_links(links, id).contains_key(k) <==> links.contains_key(k) && links[k] != id,
        without_links(links, id).contains_key(k) ==> without_links(links, id)[k] == links[k],
        without_mounts(mounts, id).contains_key(k) <==> mounts.contains_key(k)
            && mounts[k].connection_id@ != id,
        without_mounts(mounts, id).contains_key(k) ==> without_mounts(mounts, id)[k] == mounts[k],
{
}

} // verus!
