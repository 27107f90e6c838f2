//! Target-side plumbing: the pipelined-payload buffer (`Nugget`), the
//! caching DNS resolver model, and the outbound connector's configuration.
//! The system resolver and the TCP dial themselves are I/O and live outside
//! the library; the cache policy (what is fresh, what is replaced) is decided
//! here, on clock readings the caller passes in.

use crate::tunnel::EstablishTunnelResult;
use crate::tunnel::TunnelCtx;
use vstd::prelude::*;

verus! {

/// Buffered bytes received alongside a pass-through (non-CONNECT) request,
/// to be forwarded verbatim to the upstream once connected.
#[derive(Clone, Debug)]
pub struct Nugget {
    data: Vec<u8>,
}

impl View for Nugget {
    type V = Seq<u8>;

    closed spec fn view(&self) -> Seq<u8> {
        self.data@
    }
}

impl Nugget {
    pub fn new(data: Vec<u8>) -> (r: Nugget)
        ensures
            r@ == data@,
    {
        Nugget { data }
    }

    pub fn data(&self) -> (r: &Vec<u8>)
        ensures
            r@ == self@,
    {
        &self.data
    }
}


/// A resolved socket address in plain form: the IP (an IPv4 address in the
/// low 32 bits, or a full IPv6 value) and the port.
#[derive(Copy, Clone, Debug, PartialEq, Eq, Structural)]
pub struct SocketAddress {
    pub ip: u128,
    pub is_ipv6: bool,
    pub port: u16,
}

/// A memoized resolution: the addresses returned by the system resolver, in
/// the order it gave them, and the clock reading when they were obtained.
pub struct CacheEntry {
    pub addresses: Vec<SocketAddress>,
    pub resolved_at: u64,
}

/// The caching half of DNS resolution: a map from `host:port` strings to
/// memoized resolutions with a TTL, fed and read with clock readings the
/// caller supplies. The system resolver itself (an I/O concern) lives
/// outside; callers resolve only when `try_find` reports a miss, and store
/// the fresh answer with `cache_addresses`. Stale entries are replaced
/// whole, never mutated in place.
pub struct SimpleCachingDnsResolver {
    entries: Vec<(String, CacheEntry)>,
    ttl: u64,
}

pub open spec fn seq_has_key(s: Seq<(String, CacheEntry)>, k: Seq<char>) -> bool {
    exists|j: int| 0 <= j < s.len() && (#[trigger] s[j].0)@ == k
}

pub open spec fn seq_keys_unique(s: Seq<(String, CacheEntry)>) -> bool {
    forall|i: int, j: int| 0 <= i < j < s.len() ==> (#[trigger] s[i].0)@ != (#[trigger] s[j].0)@
}

/// The entry under key `k` (meaningful when `seq_has_key`).
pub open spec fn seq_entry_of(s: Seq<(String, CacheEntry)>, k: Seq<char>) -> CacheEntry {
    s[choose|j: int| 0 <= j < s.len() && (#[trigger] s[j].0)@ == k].1
}

proof fn lemma_entry_at(s: Seq<(String, CacheEntry)>, k: Seq<char>, i: int)
    requires
        seq_keys_unique(s),
        0 <= i < s.len(),
        s[i].0@ == k,
    ensures
        seq_has_key(s, k),
        seq_entry_of(s, k) == s[i].1,
{
    assert(seq_has_key(s, k));
    let w = choose|j: int| 0 <= j < s.len() && (#[trigger] s[j].0)@ == k;
    if w < i {
        assert(s[w].0@ != s[i].0@);
    } else if i < w {
        assert(s[i].0@ != s[w].0@);
    }
}

impl SimpleCachingDnsResolver {
    /// Entry lifetime in milliseconds; an entry is fresh while its age is
    /// strictly below this.
    pub closed spec fn spec_ttl(&self) -> u64 {
        self.ttl
    }

    /// Keys are unique, so each key names one memoized resolution.
    pub closed spec fn wf(&self) -> bool {
        seq_keys_unique(self.entries@)
    }

    pub closed spec fn has_key(&self, key: Seq<char>) -> bool {
        seq_has_key(self.entries@, key)
    }

    /// The memoized resolution under `key` (meaningful when `has_key`).
    pub closed spec fn entry_of(&self, key: Seq<char>) -> CacheEntry {
        seq_entry_of(self.entries@, key)
    }

    /// What a cache read returns: the first address of the entry under this
    /// key, provided the entry exists, is fresh (age strictly below the TTL)
    /// and is non-empty.
    pub open spec fn spec_lookup(&self, key: Seq<char>, now_ms: u64) -> Option<SocketAddress> {
        if self.has_key(key) {
            let e = self.entry_of(key);
            if e.resolved_at <= now_ms && now_ms - e.resolved_at < self.spec_ttl()
                && e.addresses@.len() > 0 {
                Some(e.addresses@[0])
            } else {
                None
            }
        } else {
            None
        }
    }

    pub fn new(ttl: u64) -> (r: SimpleCachingDnsResolver)
        ensures
            r.spec_ttl() == ttl,
            r.wf(),
            forall|k: Seq<char>| !r.has_key(k),
    {
        SimpleCachingDnsResolver { entries: Vec::new(), ttl }
    }

    fn find_index(&self, target: &String) -> (r: Option<usize>)
        requires
            self.wf(),
        ensures
            match r {
                Some(i) => i < self.entries@.len() && self.entries@[i as int].0@ == target@,
                None => !self.has_key(target@),
            },
    {
        let n = self.entries.len();
        let mut i: usize = 0;
        while i < n
            invariant
                i <= n,
                n == self.entries@.len(),
                forall|j: int| 0 <= j < i ==> (#[trigger] self.entries@[j].0)@ != target@,
            decreases n - i,
        {
            if self.entries[i].0 == *target {
                return Some(i);
            }
            i = i + 1;
        }
        None
    }

    /// Cache read path: the first address of a fresh entry, else a miss.
    /// The tie among several addresses is broken by the resolver's order,
    /// deterministically.
    pub fn try_find(&self, target: &String, now_ms: u64) -> (r: Option<SocketAddress>)
        requires
            self.wf(),
        ensures
            r == self.spec_lookup(target@, now_ms),
    {
        match self.find_index(target) {
            None => None,
            Some(i) => {
                proof {
                    lemma_entry_at(self.entries@, target@, i as int);
                }
                let e = &self.entries[i].1;
                if e.resolved_at <= now_ms && now_ms - e.resolved_at < self.ttl
                    && e.addresses.len() > 0 {
                    Some(e.addresses[0])
                } else {
                    None
                }
            },
        }
    }

    /// Cache write path: store a fresh resolution under `target`, replacing
    /// any previous entry whole. Entries under other keys are untouched.
    pub fn cache_addresses(&mut self, target: &String, addresses: Vec<SocketAddress>, now_ms: u64)
        requires
            old(self).wf(),
        ensures
            final(self).wf(),
            final(self).spec_ttl() == old(self).spec_ttl(),
            final(self).has_key(target@),
            final(self).entry_of(target@).resolved_at == now_ms,
            final(self).entry_of(target@).addresses@ == addresses@,
            forall|k: Seq<char>|
                k != target@ ==> (#[trigger] final(self).has_key(k) <==> old(self).has_key(k)),
            forall|k: Seq<char>|
                k != target@ && #[trigger] old(self).has_key(k) ==> final(self).entry_of(k)
                    == old(self).entry_of(k),
    {
        let ghost pre = self.entries@;
        let found = self.find_index(target);
        match found {
            Some(i) => {
                self.entries.remove(i);
                proof {
                    let mid = self.entries@;
                    assert forall|k: Seq<char>|
                        k != target@ implies (#[trigger] seq_has_key(mid, k) <==> seq_has_key(
                        pre,
                        k,
                    )) by {
                        if seq_has_key(mid, k) {
                            let j = choose|j: int| 0 <= j < mid.len() && (#[trigger] mid[j].0)@
                                == k;
                            if j < i {
                                assert(pre[j].0@ == k);
                            } else {
                                assert(pre[j + 1].0@ == k);
                            }
                        }
                        if seq_has_key(pre, k) {
                            let j = choose|j: int| 0 <= j < pre.len() && (#[trigger] pre[j].0)@
                                == k;
                            if j < i {
                                assert(mid[j].0@ == k);
                            } else {
                                assert(j != i);
                                assert(mid[j - 1].0@ == k);
                            }
                        }
                    }
                    assert forall|k: Seq<char>|
                        k != target@ && #[trigger] seq_has_key(pre, k) implies seq_entry_of(
                        mid,
                        k,
                    ) == seq_entry_of(pre, k) by {
                        let j = choose|j: int| 0 <= j < pre.len() && (#[trigger] pre[j].0)@ == k;
                        lemma_entry_at(pre, k, j);
                        if j < i {
                            assert(mid[j] == pre[j]);
                            lemma_entry_at(mid, k, j);
                        } else {
                            assert(j != i);
                            assert(mid[j - 1] == pre[j]);
                            lemma_entry_at(mid, k, j - 1);
                        }
                    }
                }
            },
            None => {
            },
        }
        let ghost mid = self.entries@;
        assert(forall|j: int| 0 <= j < mid.len() ==> (#[trigger] mid[j].0)@ != target@);
        let key = clone_string(target);
        self.entries.push((key, CacheEntry { addresses, resolved_at: now_ms }));
        proof {
            let post = self.entries@;
            let n = mid.len() as int;
            assert(post[n].0@ == target@);
            assert forall|a: int, b: int| 0 <= a < b < post.len() implies (#[trigger] post[a].0)@
                != (#[trigger] post[b].0)@ by {
                if b < n {
                    assert(post[a] == mid[a] && post[b] == mid[b]);
                } else {
                    assert(post[a] == mid[a] && post[b].0@ == target@);
                }
            }
            lemma_entry_at(post, target@, n);
            assert forall|k: Seq<char>|
                k != target@ implies (#[trigger] seq_has_key(post, k) <==> seq_has_key(
                mid,
                k,
            )) by {
                if seq_has_key(post, k) {
                    let j = choose|j: int| 0 <= j < post.len() && (#[trigger] post[j].0)@ == k;
                    assert(j != n);
                    assert(mid[j].0@ == k);
                }
                if seq_has_key(mid, k) {
                    let j = choose|j: int| 0 <= j < mid.len() && (#[trigger] mid[j].0)@ == k;
                    assert(post[j].0@ == k);
                }
            }
            assert forall|k: Seq<char>|
                k != target@ && #[trigger] seq_has_key(mid, k) implies seq_entry_of(post, k)
                    == seq_entry_of(mid, k) by {
                let j = choose|j: int| 0 <= j < mid.len() && (#[trigger] mid[j].0)@ == k;
                lemma_entry_at(mid, k, j);
                assert(post[j] == mid[j]);
                lemma_entry_at(post, k, j);
            }
            assert forall|k: Seq<char>|
                k != target@ && #[trigger] seq_has_key(pre, k) implies seq_entry_of(post, k)
                    == seq_entry_of(pre, k) by {
                assert(seq_has_key(mid, k));
                assert(seq_entry_of(mid, k) == seq_entry_of(pre, k));
                assert(seq_entry_of(post, k) == seq_entry_of(mid, k));
            }
        }
    }
}

/// Relies on String::clone: the clone carries the same characters.
#[verifier::external_body]
fn clone_string(s: &String) -> (r: String)
    ensures
        r@ == s@,
{
    s.clone()
}

/// DNS cache TTL law: once a resolution is memoized, any lookup whose clock
/// reading is within the TTL window returns the first stored address (no
/// re-resolution is needed), and any lookup at or past expiry is a miss,
/// prompting re-resolution.
pub proof fn lemma_dns_cache_ttl(c: &SimpleCachingDnsResolver, key: Seq<char>, now_ms: u64)
    requires
        c.wf(),
        c.has_key(key),
    ensures
        ({
            let e = c.entry_of(key);
            &&& (e.resolved_at <= now_ms && now_ms - e.resolved_at < c.spec_ttl()
                && e.addresses@.len() > 0 ==> c.spec_lookup(key, now_ms) == Some(
                e.addresses@[0],
            ))
            &&& (e.resolved_at <= now_ms && now_ms - e.resolved_at >= c.spec_ttl()
                ==> c.spec_lookup(
                key,
                now_ms,
            ) is None)
        }),
{
}

/// Configuration of the outbound connector: it resolves through the shared
/// DNS cache and bounds the whole resolve-and-connect step by a timeout.
/// The TCP dial itself is an I/O concern outside the library; `new` and the
/// failure mapping below are the decisions it is driven by.
pub struct SimpleTcpConnector {
    pub connect_timeout: u64,
    pub tunnel_ctx: TunnelCtx,
    pub dns_resolver: SimpleCachingDnsResolver,
}

impl SimpleTcpConnector {
    pub fn new(dns_resolver: SimpleCachingDnsResolver, connect_timeout: u64, tunnel_ctx: TunnelCtx) -> (r:
        SimpleTcpConnector)
        ensures
            r.connect_timeout == connect_timeout,
            r.tunnel_ctx == tunnel_ctx,
            r.dns_resolver == dns_resolver,
    {
        SimpleTcpConnector { connect_timeout, tunnel_ctx, dns_resolver }
    }

    /// The handshake outcome for a failed resolve-or-connect: exceeding the
    /// connect timeout is a `GatewayTimeout`; refusal or resolution failure
    /// is a `BadGateway`.
    pub fn failure_result(timed_out: bool) -> (r: EstablishTunnelResult)
        ensures
            r == if timed_out {
                EstablishTunnelResult::GatewayTimeout
            } else {
                EstablishTunnelResult::BadGateway
            },
    {
        if timed_out {
            EstablishTunnelResult::GatewayTimeout
        } else {
            EstablishTunnelResult::BadGateway
        }
    }
}

} // verus!
