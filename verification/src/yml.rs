//! Labeled sub-asset loading for YAML-like config files.
//!
//! One loader owns a set of file extensions; per asset type, a plugin
//! registers an extractor.  A load parses the file into a [`Node`] tree (the
//! parsing itself happens outside the library), navigates to the requested
//! label — a pointer-style path — and lets the registered extractors emit
//! typed labeled subassets for that node, first claim winning per label.

use vstd::prelude::*;
use crate::node::Node;
use crate::node::bytes_eq;
use crate::node::clone_bytes;
use crate::node::navigate;
use crate::node::navigate_spec;

verus! {

/// Root asset for YAML files.  The value is in the labeled subassets.
pub struct YamlFile;

/// Possible errors produced by the YAML loader.  A file that cannot be read
/// or parsed is reported by the host around the library; a label that
/// addresses no node is detected here.
#[derive(Debug)]
pub enum YamlLoaderError {
    /// Could not read the file.
    Io,
    /// Could not parse the file's bytes.
    YamlError,
    /// The label's path addresses no node in the file.
    PathNotFound(Vec<u8>),
}

/// The first labeled asset claimed under `label`, if any.
pub open spec fn label_get(entries: Seq<(Vec<u8>, u64, i64)>, label: Seq<u8>) -> Option<(u64, i64)>
    decreases entries.len(),
{
    if entries.len() == 0 {
        None
    } else if entries[0].0@ == label {
        Some((entries[0].1, entries[0].2))
    } else {
        label_get(entries.drop_first(), label)
    }
}

/// The labeled subassets one load has produced so far.
pub struct LoadContext {
    labeled: Vec<(Vec<u8>, u64, i64)>,
}

impl View for LoadContext {
    type V = Seq<(Vec<u8>, u64, i64)>;

    closed spec fn view(&self) -> Seq<(Vec<u8>, u64, i64)> {
        self.labeled@
    }
}

impl LoadContext {
    /// A load that has produced nothing yet.
    pub fn new() -> (ctx: LoadContext)
        ensures
            ctx@ == Seq::<(Vec<u8>, u64, i64)>::empty(),
    {
        LoadContext { labeled: Vec::new() }
    }

    /// Whether some extractor already claimed this label.
    pub fn has_labeled_asset(&self, label: &Vec<u8>) -> (r: bool)
        ensures
            r == (label_get(self@, label@) is Some),
    {
        match self.get_labeled_asset(label) {
            Some(_) => true,
            None => false,
        }
    }

    /// The asset type and decoded value claimed under a label, if any.
    pub fn get_labeled_asset(&self, label: &Vec<u8>) -> (r: Option<(u64, i64)>)
        ensures
            r == label_get(self@, label@),
    {
        let n = self.labeled.len();
        let mut j: usize = 0;
        proof {
            assert(self@.skip(0) =~= self@);
        }
        while j < n
            invariant
                j <= n,
                n == self@.len(),
                label_get(self@, label@) == label_get(self@.skip(j as int), label@),
            decreases n - j,
        {
            proof {
                assert(self@.skip(j as int)[0] == self@[j as int]);
                assert(self@.skip(j as int).drop_first() =~= self@.skip(j as int + 1));
            }
            if bytes_eq(&self.labeled[j].0, label) {
                return Some((self.labeled[j].1, self.labeled[j].2));
            }
            j = j + 1;
        }
        None
    }
}

/// Extractor step for one registered asset type: if some extractor already
/// claimed this label, do not overwrite (first wins); otherwise, when the
/// node decoded as the type (`decoded` is the host-side deserialization
/// outcome), attach it as a labeled subasset.
pub fn extract_requested_node_as(
    ctx: &mut LoadContext,
    label: &Vec<u8>,
    asset_type: u64,
    decoded: Option<i64>,
)
    ensures
        ({
            let claimed = label_get(old(ctx)@, label@) is Some;
            match decoded {
                Some(v) => if claimed {
                    final(ctx)@ == old(ctx)@
                } else {
                    &&& final(ctx)@.len() == old(ctx)@.len() + 1
                    &&& final(ctx)@.drop_last() == old(ctx)@
                    &&& final(ctx)@.last().0@ == label@
                    &&& final(ctx)@.last().1 == asset_type
                    &&& final(ctx)@.last().2 == v
                },
                None => final(ctx)@ == old(ctx)@,
            }
        }),
{
    if ctx.has_labeled_asset(label) {
        return ;
    }
    match decoded {
        Some(v) => {
            let copy = clone_bytes(label);
            ctx.labeled.push((copy, asset_type, v));
            proof {
                assert(ctx@.drop_last() =~= old(ctx)@);
            }
        },
        None => {},
    }
}

/// Registry of extractors: the asset types registered for extraction, in
/// registration order.
pub struct YamlExtractorRegistry {
    extractors: Vec<u64>,
}

impl View for YamlExtractorRegistry {
    type V = Seq<u64>;

    closed spec fn view(&self) -> Seq<u64> {
        self.extractors@
    }
}

impl YamlExtractorRegistry {
    /// An empty registry.
    pub fn new() -> (r: YamlExtractorRegistry)
        ensures
            r@ == Seq::<u64>::empty(),
    {
        YamlExtractorRegistry { extractors: Vec::new() }
    }

    /// Register the extractor for one asset type.
    pub fn register(&mut self, asset_type: u64)
        ensures
            final(self)@ == old(self)@.push(asset_type),
    {
        self.extractors.push(asset_type);
    }

    /// The registered asset types, in registration order.
    pub fn extractors(&self) -> (out: &Vec<u64>)
        ensures
            out@ == self@,
    {
        &self.extractors
    }
}

/// Single-loader plugin: a unit type, so "already added" checks work.
pub struct AdvancedYamlLoaderPlugin;

/// Loader wiring state: the extensions the single loader claims, whether it
/// was added, and the registered extractors.
pub struct YamlLoaderState {
    pub extensions: Option<Vec<Vec<u8>>>,
    pub loader_added: bool,
    pub registry: YamlExtractorRegistry,
}

impl YamlLoaderState {
    /// Nothing wired yet.
    pub fn new() -> (s: YamlLoaderState)
        ensures
            s.extensions is None,
            !s.loader_added,
            s.registry@ == Seq::<u64>::empty(),
    {
        YamlLoaderState { extensions: None, loader_added: false, registry: YamlExtractorRegistry::new() }
    }
}

/// Plugin users add once per asset type.  It does not register a separate
/// loader per type: the first one stores the extensions and adds the single
/// loader, every one registers its type's extractor.
pub struct AdvancedYamlAssetPlugin {
    asset_type: u64,
    extensions: Vec<Vec<u8>>,
}

impl AdvancedYamlAssetPlugin {
    /// A plugin that will extract subassets of `asset_type` from files with
    /// the given extensions.
    pub fn new(asset_type: u64, extensions: Vec<Vec<u8>>) -> (p: AdvancedYamlAssetPlugin)
        ensures
            p.asset_type_spec() == asset_type,
            p.extensions_vec() == extensions,
    {
        AdvancedYamlAssetPlugin { asset_type, extensions }
    }

    /// The asset type this plugin extracts.
    pub closed spec fn asset_type_spec(&self) -> u64 {
        self.asset_type
    }

    /// The extensions this plugin claims.
    pub closed spec fn extensions_vec(&self) -> Vec<Vec<u8>> {
        self.extensions
    }

    /// Wire the plugin in: keep already-stored extensions (first plugin
    /// wins), make sure the single loader is added, register the extractor.
    pub fn build(self, state: &mut YamlLoaderState)
        ensures
            final(state).extensions == (match old(state).extensions {
                Some(e) => Some(e),
                None => Some(self.extensions_vec()),
            }),
            final(state).loader_added,
            final(state).registry@ == old(state).registry@.push(self.asset_type_spec()),
    {
        if self.is_extensions_unset(state) {
            state.extensions = Some(self.extensions);
        }
        state.loader_added = true;
        state.registry.register(self.asset_type);
    }

    fn is_extensions_unset(&self, state: &YamlLoaderState) -> (r: bool)
        ensures
            r == (state.extensions is None),
    {
        match &state.extensions {
            None => true,
            Some(_) => false,
        }
    }
}

/// The single loader: parses a file (outside the library), then, when the
/// asset path carries a label, navigates to that label's node for the
/// extractors.
pub struct AdvancedYamlAssetLoader {
    pub extensions: Vec<Vec<u8>>,
}

impl AdvancedYamlAssetLoader {
    /// A loader claiming the given extensions.
    pub fn new(extensions: Vec<Vec<u8>>) -> (l: AdvancedYamlAssetLoader)
        ensures
            l.extensions@ == extensions@,
    {
        AdvancedYamlAssetLoader { extensions }
    }

    /// The decision at the heart of a load, once the file is parsed into
    /// `root`: with no label the root file asset alone is produced; with a
    /// label, the node its path addresses is selected for extraction, and a
    /// path that misses is an error naming the label.
    pub fn load<'a>(&self, root: &'a Node, label: Option<&Vec<u8>>) -> (r: Result<
        Option<&'a Node>,
        YamlLoaderError,
    >)
        ensures
            match label {
                None => r matches Ok(n) && n is None,
                Some(l) => match navigate_spec(*root, l@) {
                    Some(_) => r matches Ok(Some(n)) && navigate_spec(*root, l@) == Some(*n),
                    None => r matches Err(e) && e matches YamlLoaderError::PathNotFound(p) && p@
                        == l@,
                },
            },
    {
        match label {
            None => Ok(None),
            Some(l) => match navigate(root, l) {
                Some(n) => Ok(Some(n)),
                None => Err(YamlLoaderError::PathNotFound(clone_bytes(l))),
            },
        }
    }

    /// The extensions this loader claims.
    pub fn extensions(&self) -> (out: &Vec<Vec<u8>>)
        ensures
            out@ == self.extensions@,
    {
        &self.extensions
    }
}

} // verus!
