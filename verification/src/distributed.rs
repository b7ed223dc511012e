//! Cluster membership: service instances, a leader lock, leader election and the locks a
//! cluster manager hands out.
//!
//! No shared store is reached: a lock is granted on its first attempt, and discovery knows only
//! the instances recorded locally.
use vstd::prelude::*;
use crate::assoc::{find, index_of, lemma_same_keys, position_of, remove_key, string_keyed};
use crate::clock::now_millis;
use crate::text::{copy_pairs, owned, pairs_view, push_str, string_of};

verus! {

/// The role of a node.
#[derive(Debug, Clone, Copy, PartialEq, Eq, Structural)]
pub enum NodeRole {
    Leader,
    Follower,
    Candidate,
}

/// The health of a node.
#[derive(Debug, Clone, Copy, PartialEq, Eq, Structural)]
pub enum NodeStatus {
    Healthy,
    Degraded,
    Unhealthy,
    Offline,
}

/// An instance of a service.
#[derive(Debug)]
pub struct ServiceInstance {
    pub instance_id: String,
    pub service_name: String,
    pub host: String,
    pub port: u16,
    pub metadata: Vec<(String, String)>,
    pub status: NodeStatus,
    pub role: NodeRole,
    /// Unix seconds.
    pub registered_at: i64,
    /// Unix seconds.
    pub last_heartbeat_at: i64,
    pub weight: u32,
}

/// The abstract value of an instance.
pub struct InstanceView {
    pub instance_id: Seq<char>,
    pub service_name: Seq<char>,
    pub host: Seq<char>,
    pub port: u16,
    pub metadata: Seq<(Seq<char>, Seq<char>)>,
    pub status: NodeStatus,
    pub role: NodeRole,
    pub registered_at: i64,
    pub last_heartbeat_at: i64,
    pub weight: u32,
}

pub open spec fn instance_view(s: ServiceInstance) -> InstanceView {
    InstanceView {
        instance_id: s.instance_id@,
        service_name: s.service_name@,
        host: s.host@,
        port: s.port,
        metadata: pairs_view(s.metadata@),
        status: s.status,
        role: s.role,
        registered_at: s.registered_at,
        last_heartbeat_at: s.last_heartbeat_at,
        weight: s.weight,
    }
}

pub open spec fn instances_view(v: Seq<ServiceInstance>) -> Seq<InstanceView> {
    Seq::new(v.len(), |i: int| instance_view(v[i]))
}

fn copy_instance(s: &ServiceInstance) -> (r: ServiceInstance)
    ensures
        instance_view(r) == instance_view(*s),
{
    ServiceInstance {
        instance_id: s.instance_id.clone(),
        service_name: s.service_name.clone(),
        host: s.host.clone(),
        port: s.port,
        metadata: copy_pairs(&s.metadata),
        status: s.status,
        role: s.role,
        registered_at: s.registered_at,
        last_heartbeat_at: s.last_heartbeat_at,
        weight: s.weight,
    }
}

/// How a lock is taken.
#[derive(Debug, Clone, Copy, PartialEq, Eq, Structural)]
pub struct LockConfig {
    pub lock_timeout_secs: u64,
    /// How many attempts are made.
    pub retry_count: u32,
    pub retry_delay_ms: u64,
    pub use_redlock: bool,
}

impl Default for LockConfig {
    /// Thirty seconds, three attempts a tenth of a second apart, one store.
    fn default() -> (r: Self)
        ensures
            r == (LockConfig { lock_timeout_secs: 30, retry_count: 3, retry_delay_ms: 100, use_redlock: false }),
    {
        LockConfig { lock_timeout_secs: 30, retry_count: 3, retry_delay_ms: 100, use_redlock: false }
    }
}

/// A named lock held on behalf of an owner.
#[derive(Debug)]
pub struct DistributedLock {
    lock_name: String,
    owner_id: String,
    config: LockConfig,
    acquired: bool,
    /// Unix milliseconds.
    acquired_at: Option<i64>,
}

/// The abstract value of a lock.
pub struct LockView {
    pub lock_name: Seq<char>,
    pub owner_id: Seq<char>,
    pub config: LockConfig,
    pub acquired: bool,
    pub acquired_at: Option<i64>,
}

impl View for DistributedLock {
    type V = LockView;

    closed spec fn view(&self) -> LockView {
        LockView {
            lock_name: self.lock_name@,
            owner_id: self.owner_id@,
            config: self.config,
            acquired: self.acquired,
            acquired_at: self.acquired_at,
        }
    }
}

impl DistributedLock {
    /// A lock not yet taken.
    pub fn new(lock_name: String, owner_id: String, config: LockConfig) -> (r: Self)
        ensures
            r@ == (LockView { lock_name: lock_name@, owner_id: owner_id@, config, acquired: false, acquired_at: None }),
    {
        DistributedLock { lock_name, owner_id, config, acquired: false, acquired_at: None }
    }

    /// Tries to take the lock at `now` (Unix milliseconds): the first attempt succeeds, so the
    /// lock is taken unless no attempt is allowed.
    pub fn acquire_at(&mut self, now: i64) -> (r: Result<bool, String>)
        ensures
            r == Ok::<bool, String>(old(self)@.config.retry_count >= 1),
            old(self)@.config.retry_count >= 1 ==> final(self)@ == (LockView { acquired: true, acquired_at: Some(now), ..old(self)@ }),
            old(self)@.config.retry_count == 0 ==> final(self)@ == old(self)@,
    {
        if self.config.retry_count >= 1 {
            self.acquired = true;
            self.acquired_at = Some(now);
            Ok(true)
        } else {
            Ok(false)
        }
    }

    /// Tries to take the lock now.
    pub fn acquire(&mut self) -> (r: Result<bool, String>)
        ensures
            r == Ok::<bool, String>(old(self)@.config.retry_count >= 1),
            old(self)@.config.retry_count >= 1 ==> (final(self)@.acquired && final(self)@.acquired_at is Some
                && final(self)@.lock_name == old(self)@.lock_name && final(self)@.owner_id == old(self)@.owner_id
                && final(self)@.config == old(self)@.config),
            old(self)@.config.retry_count == 0 ==> final(self)@ == old(self)@,
    {
        let now = now_millis();
        self.acquire_at(now)
    }

    /// Releases the lock if it is held.
    pub fn release(&mut self) -> (r: Result<(), String>)
        ensures
            r is Ok,
            final(self)@ == (LockView { acquired: false, acquired_at: None, ..old(self)@ }),
    {
        if !self.acquired {
            self.acquired_at = None;
            return Ok(());
        }
        self.acquired = false;
        self.acquired_at = None;
        Ok(())
    }

    /// Extends the lock: true when it is held.
    pub fn renew(&self) -> (r: Result<bool, String>)
        ensures
            r == Ok::<bool, String>(self@.acquired),
    {
        Ok(self.acquired)
    }

    /// Whether the lock is held.
    pub fn is_acquired(&self) -> (r: bool)
        ensures
            r == self@.acquired,
    {
        self.acquired
    }
}

/// How instances find one another.
#[derive(Debug)]
pub struct ServiceDiscoveryConfig {
    pub redis_urls: Vec<String>,
    pub service_ttl_secs: u64,
    pub heartbeat_interval_secs: u64,
    pub health_check_interval_secs: u64,
    pub election_timeout_secs: u64,
}

impl Default for ServiceDiscoveryConfig {
    /// A local store; thirty seconds to live, heartbeats every ten, health checks every five,
    /// elections time out after fifteen.
    fn default() -> (r: Self)
        ensures
            r.redis_urls@.len() == 1 && r.redis_urls@[0]@ == "redis://localhost:6379"@,
            r.service_ttl_secs == 30 && r.heartbeat_interval_secs == 10 && r.health_check_interval_secs == 5
                && r.election_timeout_secs == 15,
    {
        let mut urls: Vec<String> = Vec::new();
        urls.push(owned("redis://localhost:6379"));
        ServiceDiscoveryConfig {
            redis_urls: urls,
            service_ttl_secs: 30,
            heartbeat_interval_secs: 10,
            health_check_interval_secs: 5,
            election_timeout_secs: 15,
        }
    }
}

/// Registers this instance, finds others and elects a leader.
pub struct ServiceDiscovery {
    config: ServiceDiscoveryConfig,
    current_instance: ServiceInstance,
    discovered_services: Vec<(String, Vec<ServiceInstance>)>,
    current_role: NodeRole,
    leader_id: Option<String>,
}

/// The abstract state of discovery.
pub struct DiscoveryView {
    pub instance: InstanceView,
    pub discovered: Seq<(Seq<char>, Seq<InstanceView>)>,
    pub role: NodeRole,
    pub leader_id: Option<Seq<char>>,
}

pub open spec fn discovered_view(v: Seq<(String, Vec<ServiceInstance>)>) -> Seq<(Seq<char>, Seq<InstanceView>)> {
    Seq::new(v.len(), |i: int| (v[i].0@, instances_view(v[i].1@)))
}

impl View for ServiceDiscovery {
    type V = DiscoveryView;

    closed spec fn view(&self) -> DiscoveryView {
        DiscoveryView {
            instance: instance_view(self.current_instance),
            discovered: discovered_view(self.discovered_services@),
            role: self.current_role,
            leader_id: match self.leader_id {
                Some(l) => Some(l@),
                None => None,
            },
        }
    }
}

/// The instances known of `service`: none when it was never discovered.
pub open spec fn known_instances(v: DiscoveryView, service: Seq<char>) -> Seq<InstanceView> {
    match find(v.discovered, service) {
        Some(s) => s,
        None => seq![],
    }
}

impl ServiceDiscovery {
    /// Discovery for `instance`, a follower with no known leader.
    pub fn new(config: ServiceDiscoveryConfig, instance: ServiceInstance) -> (r: Self)
        ensures
            r@.instance == instance_view(instance),
            r@.discovered.len() == 0,
            r@.role == NodeRole::Follower,
            r@.leader_id is None,
    {
        let r = ServiceDiscovery {
            config,
            current_instance: instance,
            discovered_services: Vec::new(),
            current_role: NodeRole::Follower,
            leader_id: None,
        };
        assert(r@.discovered =~= seq![]);
        r
    }

    /// Registers this instance (nothing is stored).
    pub fn register(&self) -> (r: Result<(), String>)
        ensures
            r is Ok,
    {
        Ok(())
    }

    /// The instances known of `service_name`.
    pub fn discover(&self, service_name: &str) -> (r: Result<Vec<ServiceInstance>, String>)
        ensures
            r matches Ok(v) && instances_view(v@) == known_instances(self@, service_name@),
    {
        let pos = position_of(&self.discovered_services, service_name);
        proof {
            lemma_same_keys(string_keyed(self.discovered_services@), self@.discovered, service_name@);
        }
        let mut out: Vec<ServiceInstance> = Vec::new();
        if let Some(p) = pos {
            let list = &self.discovered_services[p].1;
            let n = list.len();
            let mut i: usize = 0;
            while i < n
                invariant
                    i <= n,
                    n == list@.len(),
                    out@.len() == i,
                    forall|k: int| 0 <= k < i ==> instance_view(#[trigger] out@[k]) == instance_view(list@[k]),
                decreases n - i,
            {
                out.push(copy_instance(&list[i]));
                i = i + 1;
            }
            assert(instances_view(out@) =~= instances_view(list@));
        } else {
            assert(instances_view(out@) =~= seq![]);
        }
        Ok(out)
    }

    /// Sends a heartbeat (nothing is stored).
    pub fn heartbeat(&self) -> (r: Result<(), String>)
        ensures
            r is Ok,
    {
        Ok(())
    }

    /// Deregisters this instance (nothing is stored).
    pub fn deregister(&self) -> (r: Result<(), String>)
        ensures
            r is Ok,
    {
        Ok(())
    }

    /// Runs an election at `now`: this instance takes the leader lock (one attempt, held for
    /// the election timeout) and, having it, becomes the leader.
    pub fn start_election_at(&mut self, now: i64) -> (r: Result<(), String>)
        ensures
            r is Ok,
            final(self)@ == (DiscoveryView {
                role: NodeRole::Leader,
                leader_id: Some(old(self)@.instance.instance_id),
                ..old(self)@
            }),
    {
        self.current_role = NodeRole::Candidate;
        let instance_id = self.current_instance.instance_id.clone();
        let lock_config = LockConfig {
            lock_timeout_secs: self.config.election_timeout_secs,
            retry_count: 1,
            retry_delay_ms: 0,
            use_redlock: false,
        };
        let mut lock = DistributedLock::new(owned("leader:acsa"), instance_id.clone(), lock_config);
        let won = lock.acquire_at(now)?;
        if won {
            self.current_role = NodeRole::Leader;
            self.leader_id = Some(instance_id);
        } else {
            self.current_role = NodeRole::Follower;
        }
        Ok(())
    }

    /// Runs an election now.
    pub fn start_election(&mut self) -> (r: Result<(), String>)
        ensures
            r is Ok,
            final(self)@ == (DiscoveryView {
                role: NodeRole::Leader,
                leader_id: Some(old(self)@.instance.instance_id),
                ..old(self)@
            }),
    {
        let now = now_millis();
        self.start_election_at(now)
    }

    /// The role of this node.
    pub fn get_role(&self) -> (r: NodeRole)
        ensures
            r == self@.role,
    {
        self.current_role
    }

    /// The id of the leader, when one is known.
    pub fn get_leader_id(&self) -> (r: Option<String>)
        ensures
            match r {
                Some(l) => self@.leader_id == Some(l@),
                None => self@.leader_id is None,
            },
    {
        match &self.leader_id {
            Some(l) => Some(l.clone()),
            None => None,
        }
    }

    /// Whether this node leads.
    pub fn is_leader(&self) -> (r: bool)
        ensures
            r == (self@.role == NodeRole::Leader),
    {
        self.current_role == NodeRole::Leader
    }
}

/// Counts of the cluster.
#[derive(Debug, Clone, Copy, PartialEq, Eq, Structural)]
pub struct ClusterStats {
    pub total_nodes: usize,
    pub healthy_nodes: usize,
    pub leader_count: usize,
    pub lock_acquisitions: u64,
    pub lock_failures: u64,
}

impl Default for ClusterStats {
    /// All counts zero.
    fn default() -> (r: Self)
        ensures
            r == (ClusterStats { total_nodes: 0, healthy_nodes: 0, leader_count: 0, lock_acquisitions: 0, lock_failures: 0 }),
    {
        ClusterStats { total_nodes: 0, healthy_nodes: 0, leader_count: 0, lock_acquisitions: 0, lock_failures: 0 }
    }
}

/// Hands out locks and picks instances.
pub struct ClusterManager {
    service_discovery: ServiceDiscovery,
    locks: Vec<(String, DistributedLock)>,
    stats: ClusterStats,
}

/// The abstract state of a cluster manager.
pub struct ClusterView {
    pub discovery: DiscoveryView,
    pub locks: Seq<(Seq<char>, LockView)>,
    pub stats: ClusterStats,
}

pub open spec fn locks_view(v: Seq<(String, DistributedLock)>) -> Seq<(Seq<char>, LockView)> {
    Seq::new(v.len(), |i: int| (v[i].0@, v[i].1@))
}

impl View for ClusterManager {
    type V = ClusterView;

    closed spec fn view(&self) -> ClusterView {
        ClusterView { discovery: self.service_discovery@, locks: locks_view(self.locks@), stats: self.stats }
    }
}

pub open spec fn saturating_inc(x: u64) -> u64 {
    if x == u64::MAX { x } else { (x + 1) as u64 }
}

impl ClusterManager {
    /// A manager over `service_discovery`, with no lock and zero counts.
    pub fn new(service_discovery: ServiceDiscovery) -> (r: Self)
        ensures
            r@.discovery == service_discovery@,
            r@.locks.len() == 0,
            r@.stats == (ClusterStats { total_nodes: 0, healthy_nodes: 0, leader_count: 0, lock_acquisitions: 0, lock_failures: 0 }),
    {
        let r = ClusterManager { service_discovery, locks: Vec::new(), stats: ClusterStats::default() };
        assert(r@.locks =~= seq![]);
        r
    }

    /// Takes lock `lock_name` for `owner_id` at `now`: granted and kept (counted) when an attempt
    /// is allowed, refused (counted) otherwise.
    pub fn acquire_lock_at(&mut self, lock_name: &str, owner_id: &str, config: LockConfig, now: i64) -> (r: Result<DistributedLock, String>)
        ensures
            config.retry_count >= 1 ==> (r matches Ok(l) && l@ == (LockView {
                lock_name: lock_name@,
                owner_id: owner_id@,
                config,
                acquired: true,
                acquired_at: Some(now),
            })) && final(self)@.stats == (ClusterStats { lock_acquisitions: saturating_inc(old(self)@.stats.lock_acquisitions), ..old(self)@.stats })
                && final(self)@.locks.len() >= 1 && final(self)@.discovery == old(self)@.discovery,
            config.retry_count == 0 ==> (r matches Err(e) && e@ == "Failed to acquire lock: "@ + lock_name@)
                && final(self)@ == (ClusterView {
                stats: ClusterStats { lock_failures: saturating_inc(old(self)@.stats.lock_failures), ..old(self)@.stats },
                ..old(self)@
            }),
    {
        let mut lock = DistributedLock::new(owned(lock_name), owned(owner_id), config);
        let won = lock.acquire_at(now)?;
        if won {
            let held = DistributedLock { lock_name: owned(lock_name), owner_id: owned(owner_id), config, acquired: true, acquired_at: Some(now) };
            let pos = position_of(&self.locks, lock_name);
            match pos {
                Some(i) => {
                    self.locks.set(i, (owned(lock_name), lock));
                },
                None => {
                    self.locks.push((owned(lock_name), lock));
                },
            }
            if self.stats.lock_acquisitions < u64::MAX {
                self.stats.lock_acquisitions = self.stats.lock_acquisitions + 1;
            }
            Ok(held)
        } else {
            if self.stats.lock_failures < u64::MAX {
                self.stats.lock_failures = self.stats.lock_failures + 1;
            }
            let mut m: Vec<char> = Vec::new();
            push_str(&mut m, "Failed to acquire lock: ");
            push_str(&mut m, lock_name);
            Err(string_of(&m))
        }
    }

    /// Takes lock `lock_name` for `owner_id` now.
    pub fn acquire_lock(&mut self, lock_name: &str, owner_id: &str, config: LockConfig) -> (r: Result<DistributedLock, String>)
        ensures
            config.retry_count >= 1 ==> (r matches Ok(l) && l@.acquired && l@.lock_name == lock_name@ && l@.owner_id == owner_id@
                && l@.config == config) && final(self)@.stats == (ClusterStats {
                lock_acquisitions: saturating_inc(old(self)@.stats.lock_acquisitions),
                ..old(self)@.stats
            }),
            config.retry_count == 0 ==> (r matches Err(e) && e@ == "Failed to acquire lock: "@ + lock_name@)
                && final(self)@ == (ClusterView {
                stats: ClusterStats { lock_failures: saturating_inc(old(self)@.stats.lock_failures), ..old(self)@.stats },
                ..old(self)@
            }),
    {
        let now = now_millis();
        self.acquire_lock_at(lock_name, owner_id, config, now)
    }

    /// Releases and forgets lock `lock_name`: the first lock of that name leaves the table (see
    /// `remove_key`); without one nothing changes.
    pub fn release_lock(&mut self, lock_name: &str) -> (r: Result<(), String>)
        ensures
            r is Ok,
            final(self)@.stats == old(self)@.stats,
            final(self)@.discovery == old(self)@.discovery,
            final(self)@.locks == remove_key(old(self)@.locks, lock_name@),
            find(old(self)@.locks, lock_name@) is None ==> final(self)@ == old(self)@,
    {
        let pos = position_of(&self.locks, lock_name);
        proof {
            lemma_same_keys(string_keyed(self.locks@), self@.locks, lock_name@);
        }
        if let Some(i) = pos {
            let ghost before = self.locks@;
            let (_, mut lock) = self.locks.remove(i);
            assert(locks_view(self.locks@) =~= locks_view(before).remove(i as int));
            assert(index_of(locks_view(before), lock_name@) == Some(i as int));
            lock.release()?;
        }
        Ok(())
    }

    /// The counts.
    pub fn get_cluster_status(&self) -> (r: ClusterStats)
        ensures
            r == self@.stats,
    {
        self.stats
    }

    /// An instance of `service_name`: the first one known, or an error when none is.
    pub fn select_instance(&self, service_name: &str) -> (r: Result<ServiceInstance, String>)
        ensures
            known_instances(self@.discovery, service_name@).len() == 0 ==> (r matches Err(e) && e@
                == "No available instances for service: "@ + service_name@),
            known_instances(self@.discovery, service_name@).len() > 0 ==> (r matches Ok(s) && instance_view(s)
                == known_instances(self@.discovery, service_name@)[0]),
    {
        let instances = self.service_discovery.discover(service_name)?;
        if instances.len() == 0 {
            let mut m: Vec<char> = Vec::new();
            push_str(&mut m, "No available instances for service: ");
            push_str(&mut m, service_name);
            return Err(string_of(&m));
        }
        assert(instance_view(instances@[0]) == instances_view(instances@)[0]);
        Ok(copy_instance(&instances[0]))
    }
}

} // verus!
