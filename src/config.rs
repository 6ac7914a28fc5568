//! Server configuration, and the first-run discovery of storage roots.
use vstd::prelude::*;
use crate::grammar::matches_at;
use crate::search::{join, join_path};

verus! {

/// Where the files are: asset bundle roots and manifest roots, each in the
/// order in which they are searched.
pub struct LocationOptions {
    pub assetbundles: Vec<String>,
    pub manifests: Vec<String>,
}

pub struct HttpsOptions {
    pub enabled: bool,
    pub cert: String,
    pub key: String,
}

pub struct ServerOptions {
    pub port: u16,
    pub https: HttpsOptions,
}

pub struct ServerConfig {
    pub locations: LocationOptions,
    pub server: ServerOptions,
}

/// The port that a new configuration listens on.
pub const DEFAULT_PORT: u16 = 3000;

/// Why the server cannot start.
#[derive(Clone, Copy, Debug, PartialEq, Eq, Structural)]
pub enum ConfigError {
    NoAssetRoots,
}

/// A configuration that the server can start with.
#[derive(Clone, Copy, Debug, PartialEq, Eq, Structural)]
pub enum Startup {
    Ready,
    /// Without manifest roots no manifest can be served; the server starts anyway.
    NoManifestRoots,
}

impl ServerConfig {
    /// A configuration over the given roots: plain HTTP on the default port.
    pub fn new(assetbundles: Vec<String>, manifests: Vec<String>) -> (r: ServerConfig)
        ensures
            r.locations.assetbundles@ == assetbundles@,
            r.locations.manifests@ == manifests@,
            r.server.port == DEFAULT_PORT,
            !r.server.https.enabled,
            r.server.https.cert@.len() == 0,
            r.server.https.key@.len() == 0,
    {
        ServerConfig {
            locations: LocationOptions { assetbundles, manifests },
            server: ServerOptions {
                port: DEFAULT_PORT,
                https: HttpsOptions { enabled: false, cert: String::new(), key: String::new() },
            },
        }
    }

    /// Takes the discovered manifest roots where none are configured. The
    /// result says whether the configuration changed in a way worth saving.
    pub fn adopt_discovered_manifests(&mut self, found: Vec<String>) -> (save: bool)
        ensures
            save == (old(self).locations.manifests@.len() == 0),
            save ==> final(self).locations.manifests@ == found@,
            !save ==> final(self).locations.manifests@ == old(self).locations.manifests@,
            final(self).locations.assetbundles@ == old(self).locations.assetbundles@,
            final(self).server == old(self).server,
    {
        if self.locations.manifests.len() == 0 {
            self.locations.manifests = found;
            true
        } else {
            false
        }
    }

    /// Whether the server can start: it needs at least one asset root.
    pub fn startup_check(&self) -> (r: Result<Startup, ConfigError>)
        ensures
            self.locations.assetbundles@.len() == 0 ==> r == Err::<Startup, ConfigError>(
                ConfigError::NoAssetRoots,
            ),
            self.locations.assetbundles@.len() > 0 && self.locations.manifests@.len() == 0 ==> r
                == Ok::<Startup, ConfigError>(Startup::NoManifestRoots),
            self.locations.assetbundles@.len() > 0 && self.locations.manifests@.len() > 0 ==> r
                == Ok::<Startup, ConfigError>(Startup::Ready),
    {
        if self.locations.assetbundles.len() == 0 {
            Err(ConfigError::NoAssetRoots)
        } else if self.locations.manifests.len() == 0 {
            Ok(Startup::NoManifestRoots)
        } else {
            Ok(Startup::Ready)
        }
    }
}


/// A directory met during discovery: its path, its own name, and the names of
/// the entries in it, in the order they were listed.
pub struct DirListing {
    pub path: String,
    pub name: String,
    pub entries: Vec<String>,
}

pub ghost struct DirView {
    pub path: Seq<char>,
    pub name: Seq<char>,
    pub entries: Seq<Seq<char>>,
}

impl View for DirListing {
    type V = DirView;

    open spec fn view(&self) -> DirView {
        DirView { path: self.path@, name: self.name@, entries: self.entries.deep_view() }
    }
}

/// What a directory is taken for.
pub enum RootKind {
    Assets(String),
    Manifests(String),
    Neither,
}

pub ghost enum RootKindView {
    Assets(Seq<char>),
    Manifests(Seq<char>),
    Neither,
}

impl View for RootKind {
    type V = RootKindView;

    open spec fn view(&self) -> RootKindView {
        match self {
            RootKind::Assets(p) => RootKindView::Assets(p@),
            RootKind::Manifests(p) => RootKindView::Manifests(p@),
            RootKind::Neither => RootKindView::Neither,
        }
    }
}

/// The first entry from `i` on that marks the directory: a platform folder
/// makes that folder an asset root; the container folder `2A` makes the
/// directory an asset root; one of the two known manifest identifiers makes it
/// a manifest root.
pub open spec fn scan_entries(path: Seq<char>, entries: Seq<Seq<char>>, i: int) -> RootKindView
    decreases entries.len() - i,
{
    if i < 0 || i >= entries.len() {
        RootKindView::Neither
    } else {
        let e = entries[i];
        if e == "Android"@ || e == "iOS"@ {
            RootKindView::Assets(join(path, e))
        } else if e == "2A"@ {
            RootKindView::Assets(path)
        } else if e == "y2XM6giU6zz56wCm"@ || e == "b1HyoeTFegeTexC0"@ {
            RootKindView::Manifests(path)
        } else {
            scan_entries(path, entries, i + 1)
        }
    }
}

/// A directory named `manifest` or `orchis` is a manifest root, one named
/// `assetbundles` an asset root; any other is judged by its entries.
pub open spec fn classify_spec(d: DirView) -> RootKindView {
    if d.name == "manifest"@ || d.name == "orchis"@ {
        RootKindView::Manifests(d.path)
    } else if d.name == "assetbundles"@ {
        RootKindView::Assets(d.path)
    } else {
        scan_entries(d.path, d.entries, 0)
    }
}

fn same_text(a: &str, b: &str) -> (r: bool)
    ensures
        r == (a@ == b@),
{
    let n = a.unicode_len();
    if b.unicode_len() != n {
        return false;
    }
    let r = matches_at(a, n, 0, b);
    assert(a@ =~= a@.subrange(0, n as int));
    r
}

pub fn classify(d: &DirListing) -> (r: RootKind)
    ensures
        r@ == classify_spec(d@),
{
    let name = d.name.as_str();
    if same_text(name, "manifest") || same_text(name, "orchis") {
        return RootKind::Manifests(d.path.clone());
    }
    if same_text(name, "assetbundles") {
        return RootKind::Assets(d.path.clone());
    }
    let mut i: usize = 0;
    while i < d.entries.len()
        invariant
            i <= d.entries.len(),
            scan_entries(d.path@, d.entries.deep_view(), 0) == scan_entries(
                d.path@,
                d.entries.deep_view(),
                i as int,
            ),
            classify_spec(d@) == scan_entries(d.path@, d.entries.deep_view(), 0),
        decreases d.entries.len() - i,
    {
        let e = d.entries[i].as_str();
        assert(d.entries.deep_view()[i as int] == e@);
        if same_text(e, "Android") || same_text(e, "iOS") {
            return RootKind::Assets(join_path(d.path.as_str(), e));
        } else if same_text(e, "2A") {
            return RootKind::Assets(d.path.clone());
        } else if same_text(e, "y2XM6giU6zz56wCm") || same_text(e, "b1HyoeTFegeTexC0") {
            return RootKind::Manifests(d.path.clone());
        }
        i = i + 1;
    }
    RootKind::Neither
}

pub open spec fn dir_views(dirs: Seq<DirListing>) -> Seq<DirView> {
    dirs.map_values(|d: DirListing| d@)
}

/// The asset roots among `dirs`, in order.
pub open spec fn asset_roots(dirs: Seq<DirView>) -> Seq<Seq<char>>
    decreases dirs.len(),
{
    if dirs.len() == 0 {
        Seq::empty()
    } else {
        let r = asset_roots(dirs.drop_last());
        match classify_spec(dirs.last()) {
            RootKindView::Assets(p) => r.push(p),
            _ => r,
        }
    }
}

/// The manifest roots among `dirs`, in order.
pub open spec fn manifest_roots(dirs: Seq<DirView>) -> Seq<Seq<char>>
    decreases dirs.len(),
{
    if dirs.len() == 0 {
        Seq::empty()
    } else {
        let r = manifest_roots(dirs.drop_last());
        match classify_spec(dirs.last()) {
            RootKindView::Manifests(p) => r.push(p),
            _ => r,
        }
    }
}

/// The storage roots found among the directories of a first run: asset roots
/// and manifest roots, each in the order of `dirs`.
pub fn discover(dirs: &Vec<DirListing>) -> (r: (Vec<String>, Vec<String>))
    ensures
        r.0.deep_view() == asset_roots(dir_views(dirs@)),
        r.1.deep_view() == manifest_roots(dir_views(dirs@)),
{
    let mut assets: Vec<String> = Vec::new();
    let mut manifests: Vec<String> = Vec::new();
    let mut i: usize = 0;
    while i < dirs.len()
        invariant
            i <= dirs.len(),
            assets.deep_view() == asset_roots(dir_views(dirs@.subrange(0, i as int))),
            manifests.deep_view() == manifest_roots(dir_views(dirs@.subrange(0, i as int))),
        decreases dirs.len() - i,
    {
        let ghost before = dir_views(dirs@.subrange(0, i as int));
        let ghost after = dir_views(dirs@.subrange(0, i + 1));
        assert(after.drop_last() =~= before);
        assert(after.last() == dirs@[i as int]@);
        match classify(&dirs[i]) {
            RootKind::Assets(p) => {
                assets.push(p);
            },
            RootKind::Manifests(p) => {
                manifests.push(p);
            },
            RootKind::Neither => {},
        }
        assert(assets.deep_view() =~= asset_roots(after));
        assert(manifests.deep_view() =~= manifest_roots(after));
        i = i + 1;
    }
    assert(dirs@.subrange(0, i as int) =~= dirs@);
    (assets, manifests)
}

} // verus!
