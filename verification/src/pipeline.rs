//! Deferred handle-to-handle transform pipelines.
//!
//! A transform request names an input asset handle, a reserved output handle,
//! one-shot parameters and the user transformer system to run.  Requests wait
//! until their input asset is available; a processor pass then hands the
//! ready ones to the host, which runs each transformer and stores its output
//! under the reserved handle, while pending requests stay queued.

use vstd::prelude::*;
use std::collections::HashMap;

verus! {

broadcast use vstd::std_specs::hash::group_hash_axioms;

/// Store of loaded assets of one type, addressed by handle id, with a handle
/// allocator for outputs that do not exist yet.
pub struct Assets {
    loaded: HashMap<u64, i64>,
    next_handle: u64,
}

/// Mathematical image of an asset store.
pub struct AssetsView {
    pub loaded: Map<u64, i64>,
    pub next_handle: u64,
}

impl View for Assets {
    type V = AssetsView;

    closed spec fn view(&self) -> AssetsView {
        AssetsView { loaded: self.loaded@, next_handle: self.next_handle }
    }
}

impl Assets {
    /// An empty store.
    pub fn new() -> (a: Assets)
        ensures
            a@.loaded == Map::<u64, i64>::empty(),
            a@.next_handle == 0,
    {
        Assets { loaded: HashMap::new(), next_handle: 0 }
    }

    /// Reserve a handle for an asset that will exist later.
    pub fn reserve_handle(&mut self) -> (h: u64)
        requires
            old(self)@.next_handle < u64::MAX,
        ensures
            h == old(self)@.next_handle,
            final(self)@.next_handle == old(self)@.next_handle + 1,
            final(self)@.loaded == old(self)@.loaded,
    {
        let h = self.next_handle;
        self.next_handle = self.next_handle + 1;
        h
    }

    /// The asset behind a handle, if it is loaded.
    pub fn get(&self, h: u64) -> (r: Option<i64>)
        ensures
            r == if self@.loaded.contains_key(h) {
                Some(self@.loaded[h])
            } else {
                None::<i64>
            },
    {
        match self.loaded.get(&h) {
            Some(v) => Some(*v),
            None => None,
        }
    }

    /// Whether the asset behind a handle is loaded.
    pub fn contains(&self, h: u64) -> (r: bool)
        ensures
            r == self@.loaded.contains_key(h),
    {
        self.loaded.contains_key(&h)
    }

    /// Store an asset under a handle.
    pub fn insert(&mut self, h: u64, v: i64)
        ensures
            final(self)@.loaded == old(self)@.loaded.insert(h, v),
            final(self)@.next_handle == old(self)@.next_handle,
    {
        self.loaded.insert(h, v);
    }
}

/// The actual input a user transformer system receives: the borrowed input
/// asset together with the request's parameters.
#[derive(Clone, Copy, Debug, PartialEq, Eq, Structural)]
pub struct TransformerInput {
    pub asset: i64,
    pub params: i64,
}

/// Marker type standing for the declared system-input shape under which
/// transformer systems are registered with the host scheduler.
pub struct TransformerInputMarker;

/// One queued transform: produce the asset for `handle_out` from the asset
/// behind `handle_in` through transformer system `system`, consuming `params`
/// once.
#[derive(Clone, Copy, Debug)]
pub struct TransformRequest {
    pub handle_in: u64,
    pub handle_out: u64,
    pub params: Option<i64>,
    pub system: u64,
}

/// A request is ready once its input asset is available and its parameters
/// have not yet been consumed.
pub open spec fn is_ready(r: TransformRequest, loaded: Map<u64, i64>) -> bool {
    r.params is Some && loaded.contains_key(r.handle_in)
}

/// The requests a processor pass hands out, in queue order.
pub open spec fn ready_of(reqs: Seq<TransformRequest>, loaded: Map<u64, i64>) -> Seq<
    TransformRequest,
>
    decreases reqs.len(),
{
    if reqs.len() == 0 {
        Seq::empty()
    } else {
        let rest = ready_of(reqs.drop_last(), loaded);
        if is_ready(reqs.last(), loaded) {
            rest.push(reqs.last())
        } else {
            rest
        }
    }
}

/// The requests a processor pass keeps queued, in queue order.
pub open spec fn pending_of(reqs: Seq<TransformRequest>, loaded: Map<u64, i64>) -> Seq<
    TransformRequest,
>
    decreases reqs.len(),
{
    if reqs.len() == 0 {
        Seq::empty()
    } else {
        let rest = pending_of(reqs.drop_last(), loaded);
        if is_ready(reqs.last(), loaded) {
            rest
        } else {
            rest.push(reqs.last())
        }
    }
}

impl TransformRequest {
    /// The input the host hands this request's transformer system, available
    /// exactly when the request is ready.
    pub fn input_for(&self, assets: &Assets) -> (r: Option<TransformerInput>)
        ensures
            match r {
                Some(inp) => is_ready(*self, assets@.loaded) && inp.asset == assets@.loaded[
                    self.handle_in
                ] && self.params == Some(inp.params),
                None => !is_ready(*self, assets@.loaded),
            },
    {
        match self.params {
            Some(p) => match assets.get(self.handle_in) {
                Some(a) => Some(TransformerInput { asset: a, params: p }),
                None => None,
            },
            None => None,
        }
    }
}

/// Plugin that provides the [`HandleTransformer`] state and schedules its
/// processor pass late in each cycle.
pub struct HandleTransformerPlugin;

impl HandleTransformerPlugin {
    /// Set up an empty transformer state.
    pub fn build(&self) -> (t: HandleTransformer)
        ensures
            t@ == Seq::<TransformRequest>::empty(),
    {
        HandleTransformer::new()
    }
}

/// Creates new handles from existing ones via user-defined transformer
/// systems: each transform reserves the output handle at once and queues a
/// request that completes when its input asset arrives.
pub struct HandleTransformer {
    requests: Vec<TransformRequest>,
}

impl View for HandleTransformer {
    type V = Seq<TransformRequest>;

    closed spec fn view(&self) -> Seq<TransformRequest> {
        self.requests@
    }
}

impl HandleTransformer {
    /// No requests queued.
    pub fn new() -> (t: HandleTransformer)
        ensures
            t@ == Seq::<TransformRequest>::empty(),
    {
        HandleTransformer { requests: Vec::new() }
    }

    /// Queue a transform of the asset behind `input` through transformer
    /// system `system` with `params`; the reserved output handle is returned
    /// at once and receives the produced asset when the request completes.
    pub fn transform_with_params(
        &mut self,
        assets: &mut Assets,
        input: u64,
        params: i64,
        system: u64,
    ) -> (out: u64)
        requires
            old(assets)@.next_handle < u64::MAX,
        ensures
            out == old(assets)@.next_handle,
            final(assets)@.next_handle == old(assets)@.next_handle + 1,
            final(assets)@.loaded == old(assets)@.loaded,
            final(self)@ == old(self)@.push(
                TransformRequest { handle_in: input, handle_out: out, params: Some(params), system },
            ),
    {
        let out = assets.reserve_handle();
        self.requests.push(
            TransformRequest { handle_in: input, handle_out: out, params: Some(params), system },
        );
        out
    }

    /// Queue a parameterless transform.
    pub fn transform(&mut self, assets: &mut Assets, input: u64, system: u64) -> (out: u64)
        requires
            old(assets)@.next_handle < u64::MAX,
        ensures
            out == old(assets)@.next_handle,
            final(assets)@.next_handle == old(assets)@.next_handle + 1,
            final(assets)@.loaded == old(assets)@.loaded,
            final(self)@ == old(self)@.push(
                TransformRequest { handle_in: input, handle_out: out, params: Some(0), system },
            ),
    {
        self.transform_with_params(assets, input, 0, system)
    }

    /// Whether any requests are queued.
    pub fn has_pending(&self) -> (r: bool)
        ensures
            r == (self@.len() > 0),
    {
        self.requests.len() > 0
    }

    /// One processor pass: hand out the requests whose input asset is
    /// available (their parameters are thereby consumed) and keep the rest
    /// queued.  The second component says whether the processor must stay
    /// scheduled: it stops only when it saw no requests at all.
    pub fn take_ready(&mut self, assets: &Assets) -> (r: (Vec<TransformRequest>, bool))
        ensures
            r.0@ == ready_of(old(self)@, assets@.loaded),
            final(self)@ == pending_of(old(self)@, assets@.loaded),
            r.1 == (old(self)@.len() > 0),
    {
        let ghost m = assets@.loaded;
        let n = self.requests.len();
        let had_any = n > 0;
        let mut ready: Vec<TransformRequest> = Vec::new();
        let mut pending: Vec<TransformRequest> = Vec::new();
        let mut i: usize = 0;
        proof {
            assert(old(self)@.take(0) =~= Seq::<TransformRequest>::empty());
            assert(ready_of(Seq::<TransformRequest>::empty(), m) =~= Seq::<
                TransformRequest,
            >::empty());
            assert(pending_of(Seq::<TransformRequest>::empty(), m) =~= Seq::<
                TransformRequest,
            >::empty());
        }
        while i < n
            invariant
                i <= n,
                n == old(self)@.len(),
                self@ == old(self)@,
                m == assets@.loaded,
                ready@ == ready_of(old(self)@.take(i as int), m),
                pending@ == pending_of(old(self)@.take(i as int), m),
            decreases n - i,
        {
            let req = self.requests[i];
            let is_r = match req.params {
                Some(_) => assets.contains(req.handle_in),
                None => false,
            };
            proof {
                let prefix = old(self)@.take(i as int);
                let ext = old(self)@.take(i as int + 1);
                assert(ext.drop_last() =~= prefix);
                assert(ext.last() == old(self)@[i as int]);
                assert(is_r == is_ready(old(self)@[i as int], m));
                if is_r {
                    assert(ready_of(ext, m) == ready_of(prefix, m).push(old(self)@[i as int]));
                    assert(pending_of(ext, m) == pending_of(prefix, m));
                } else {
                    assert(ready_of(ext, m) == ready_of(prefix, m));
                    assert(pending_of(ext, m) == pending_of(prefix, m).push(old(self)@[i as int]));
                }
            }
            if is_r {
                ready.push(req);
            } else {
                pending.push(req);
            }
            i = i + 1;
        }
        proof {
            assert(old(self)@.take(n as int) =~= old(self)@);
        }
        self.requests = pending;
        (ready, had_any)
    }
}

} // verus!
