//! Dynamic config nodes and the deserialization-handle cache.
//!
//! A [`DynNode`] is a whole config file parsed into a generic node tree; any
//! path into it can be queried in pointer form (leading `/`, `~`-escaped
//! segments).  A [`DynNodeResolver`] hands out one stable asset handle per
//! (config, path, asset type) triple: asking again returns the cached handle,
//! asking first reserves one and queues the extraction to run once the config
//! asset is loaded.

use vstd::prelude::*;
use std::collections::HashMap;
use crate::node::Node;
use crate::node::bytes_eq;
use crate::node::clone_bytes;
use crate::node::navigate_at;
use crate::node::navigate_from;

verus! {

broadcast use vstd::std_specs::hash::group_hash_axioms;

/// Generic config-node asset: one parsed file.
pub struct DynNode {
    root: Node,
}

/// What querying a pointer path yields: the whole document for the empty
/// path; otherwise the path must start with `/` and its segments are walked.
pub open spec fn pointer_spec(root: Node, path: Seq<u8>) -> Option<Node> {
    if path.len() == 0 {
        Some(root)
    } else if path[0] != 0x2f {
        None
    } else {
        navigate_from(root, path, 1)
    }
}

impl DynNode {
    /// Wrap a parsed file.
    pub fn new(root: Node) -> (d: DynNode)
        ensures
            d.root_spec() == root,
    {
        DynNode { root }
    }

    /// The parsed document.
    pub closed spec fn root_spec(&self) -> Node {
        self.root
    }

    /// Query the config at a pointer path (starts with `/`).
    pub fn query_raw(&self, path: &Vec<u8>) -> (r: Option<&Node>)
        ensures
            match r {
                Some(n) => pointer_spec(self.root_spec(), path@) == Some(*n),
                None => pointer_spec(self.root_spec(), path@) is None,
            },
    {
        if path.len() == 0 {
            return Some(&self.root);
        }
        if path[0] != 0x2f {
            return None;
        }
        navigate_at(&self.root, path, 1)
    }

    /// Query the config at a pointer path and read the node as one integer
    /// value — the typed form of [`DynNode::query_raw`] for plain values.
    pub fn query(&self, path: &Vec<u8>) -> (r: Option<i64>)
        ensures
            r == match pointer_spec(self.root_spec(), path@) {
                Some(Node::Int(v)) => Some(v),
                _ => None::<i64>,
            },
    {
        match self.query_raw(path) {
            Some(n) => match n {
                Node::Int(v) => Some(*v),
                _ => None,
            },
            None => None,
        }
    }
}

/// One cached resolution: the handle reserved for (config, path, asset type).
#[derive(Clone, Copy, Debug)]
pub struct ResolvedEntry {
    pub config: u64,
    pub asset_type: u64,
    pub handle: u64,
}

/// The handle cached for a (config, path, asset type) triple, if any.
pub open spec fn cache_get(
    entries: Seq<(Vec<u8>, ResolvedEntry)>,
    config: u64,
    path: Seq<u8>,
    asset_type: u64,
) -> Option<u64>
    decreases entries.len(),
{
    if entries.len() == 0 {
        None
    } else if entries[0].1.config == config && entries[0].0@ == path && entries[0].1.asset_type
        == asset_type {
        Some(entries[0].1.handle)
    } else {
        cache_get(entries.drop_first(), config, path, asset_type)
    }
}

/// A pending extraction: once the config asset is loaded, query it at the
/// path, decode the node as the asset type and store it under the handle.
#[derive(Debug)]
pub struct ExtractionRequest {
    pub config: u64,
    pub path: Vec<u8>,
    pub asset_type: u64,
    pub handle: u64,
}

/// Resolves (config handle, pointer path, asset type) triples to asset
/// handles, deduplicated process-wide, and queues the extraction work that
/// will fill a freshly reserved handle.
pub struct DynNodeResolver {
    cache: Vec<(Vec<u8>, ResolvedEntry)>,
    providers: HashMap<u64, u64>,
    pending: Vec<ExtractionRequest>,
}

/// Mathematical image of the resolver.
pub struct ResolverView {
    pub cache: Seq<(Vec<u8>, ResolvedEntry)>,
    pub providers: Map<u64, u64>,
    pub pending: Seq<ExtractionRequest>,
}

impl View for DynNodeResolver {
    type V = ResolverView;

    closed spec fn view(&self) -> ResolverView {
        ResolverView { cache: self.cache@, providers: self.providers@, pending: self.pending@ }
    }
}

impl DynNodeResolver {
    /// A resolver with no asset types initialized.
    pub fn new() -> (r: DynNodeResolver)
        ensures
            r@.cache == Seq::<(Vec<u8>, ResolvedEntry)>::empty(),
            r@.providers == Map::<u64, u64>::empty(),
            r@.pending == Seq::<ExtractionRequest>::empty(),
    {
        DynNodeResolver { cache: Vec::new(), providers: HashMap::new(), pending: Vec::new() }
    }

    /// Initialize an asset type so it can be resolved, giving it a handle
    /// allocator starting at zero.
    pub fn init_dyn_asset(&mut self, asset_type: u64)
        ensures
            final(self)@.providers == if old(self)@.providers.contains_key(asset_type) {
                old(self)@.providers
            } else {
                old(self)@.providers.insert(asset_type, 0)
            },
            final(self)@.cache == old(self)@.cache,
            final(self)@.pending == old(self)@.pending,
    {
        if !self.providers.contains_key(&asset_type) {
            self.providers.insert(asset_type, 0);
        }
    }

    /// The handle already resolved for a triple, if any.
    pub fn cached(&self, config: u64, path: &Vec<u8>, asset_type: u64) -> (r: Option<u64>)
        ensures
            r == cache_get(self@.cache, config, path@, asset_type),
    {
        let n = self.cache.len();
        let mut j: usize = 0;
        proof {
            assert(self@.cache.skip(0) =~= self@.cache);
        }
        while j < n
            invariant
                j <= n,
                n == self@.cache.len(),
                cache_get(self@.cache, config, path@, asset_type) == cache_get(
                    self@.cache.skip(j as int),
                    config,
                    path@,
                    asset_type,
                ),
            decreases n - j,
        {
            proof {
                assert(self@.cache.skip(j as int)[0] == self@.cache[j as int]);
                assert(self@.cache.skip(j as int).drop_first() =~= self@.cache.skip(j as int + 1));
            }
            let hit = self.cache[j].1.config == config && self.cache[j].1.asset_type == asset_type
                && bytes_eq(&self.cache[j].0, path);
            if hit {
                return Some(self.cache[j].1.handle);
            }
            j = j + 1;
        }
        None
    }

    /// Resolve a (config, path, asset type) triple to an asset handle: the
    /// cached handle when the triple was resolved before, otherwise a freshly
    /// reserved handle, recorded in the cache, with the extraction queued to
    /// run once the config asset is loaded.  The asset type must have been
    /// initialized first — resolving an uninitialized type is a wiring error.
    pub fn resolve(&mut self, config: u64, path: &Vec<u8>, asset_type: u64) -> (h: u64)
        requires
            old(self)@.providers.contains_key(asset_type),
            old(self)@.providers[asset_type] < u64::MAX,
        ensures
            ({
                let hit = cache_get(old(self)@.cache, config, path@, asset_type);
                match hit {
                    Some(cached) => h == cached && final(self)@.cache == old(self)@.cache
                        && final(self)@.providers == old(self)@.providers
                        && final(self)@.pending == old(self)@.pending,
                    None => {
                        &&& h == old(self)@.providers[asset_type]
                        &&& final(self)@.providers == old(self)@.providers.insert(
                            asset_type,
                            (old(self)@.providers[asset_type] + 1) as u64,
                        )
                        &&& final(self)@.cache.len() == old(self)@.cache.len() + 1
                        &&& final(self)@.cache.drop_last() == old(self)@.cache
                        &&& final(self)@.cache.last().0@ == path@
                        &&& final(self)@.cache.last().1 == (ResolvedEntry {
                            config,
                            asset_type,
                            handle: h,
                        })
                        &&& final(self)@.pending.len() == old(self)@.pending.len() + 1
                        &&& final(self)@.pending.drop_last() == old(self)@.pending
                        &&& final(self)@.pending.last().config == config
                        &&& final(self)@.pending.last().path@ == path@
                        &&& final(self)@.pending.last().asset_type == asset_type
                        &&& final(self)@.pending.last().handle == h
                    },
                }
            }),
    {
        match self.cached(config, path, asset_type) {
            Some(h) => h,
            None => {
                let next: u64 = match self.providers.get(&asset_type) {
                    Some(v) => *v,
                    None => 0,
                };
                self.providers.insert(asset_type, next + 1);
                let key = clone_bytes(path);
                self.cache.push((key, ResolvedEntry { config, asset_type, handle: next }));
                let req_path = clone_bytes(path);
                self.pending.push(
                    ExtractionRequest { config, path: req_path, asset_type, handle: next },
                );
                proof {
                    assert(self@.cache.drop_last() =~= old(self)@.cache);
                    assert(self@.pending.drop_last() =~= old(self)@.pending);
                }
                next
            },
        }
    }

    /// Hand the queued extractions to the host, which runs them against the
    /// loaded config assets.
    pub fn take_pending(&mut self) -> (out: Vec<ExtractionRequest>)
        ensures
            out@ == old(self)@.pending,
            final(self)@.pending == Seq::<ExtractionRequest>::empty(),
            final(self)@.cache == old(self)@.cache,
            final(self)@.providers == old(self)@.providers,
    {
        let mut out: Vec<ExtractionRequest> = Vec::new();
        std::mem::swap(&mut out, &mut self.pending);
        out
    }
}

/// The extraction an on-loaded processor performs: query the loaded config at
/// the request's path and hand the node back for decoding and insertion under
/// the reserved handle.  A path that queries nothing is a wiring error and
/// fatal by design; the contract excludes it.
pub fn on_loaded_query_extract<'a>(config: &'a DynNode, req: &ExtractionRequest) -> (n: &'a Node)
    requires
        pointer_spec(config.root_spec(), req.path@) is Some,
    ensures
        pointer_spec(config.root_spec(), req.path@) == Some(*n),
{
    let r = config.query_raw(&req.path);
    match r {
        Some(n) => n,
        None => vstd::pervasive::unreached(),
    }
}

} // verus!
