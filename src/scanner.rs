//! The directories that contribute files to a theme, in priority order.
//!
//! Which directories exist is observed by the caller and handed in as plain values;
//! the paths to look at and the order of the layers are decided here.

use vstd::prelude::*;

use crate::text::{chars_of, find_char, index_of, join_path, path_join};
use crate::theme::{detect_theme_type, is_hyva, parent_view, parse_theme_xml, Area, Theme, ThemeType};
use crate::xml::{declared_module, declared_parent, module_name_from_events, opt_text, read_events};
use crate::xml_reader::xml_events;

verus! {

/// A directory that may contribute static files to a theme.
#[derive(Debug, Clone)]
pub enum FileSource {
    /// A theme's own `web` directory.
    ThemeWeb { theme: String, path: String },
    /// The shared library directory `lib/web`.
    Library { path: String },
    /// A vendor module's `web` directory.
    VendorModule { module: String, path: String },
    /// A theme's override of a module's assets.
    ThemeModuleOverride { theme: String, module: String, path: String },
}

/// A file source, as text.
pub enum SourceView {
    ThemeWeb { theme: Seq<char>, path: Seq<char> },
    Library { path: Seq<char> },
    VendorModule { module: Seq<char>, path: Seq<char> },
    ThemeModuleOverride { theme: Seq<char>, module: Seq<char>, path: Seq<char> },
}

impl View for FileSource {
    type V = SourceView;

    open spec fn view(&self) -> SourceView {
        match self {
            FileSource::ThemeWeb { theme, path } => SourceView::ThemeWeb { theme: theme@, path: path@ },
            FileSource::Library { path } => SourceView::Library { path: path@ },
            FileSource::VendorModule { module, path } => SourceView::VendorModule {
                module: module@,
                path: path@,
            },
            FileSource::ThemeModuleOverride { theme, module, path } => SourceView::ThemeModuleOverride {
                theme: theme@,
                module: module@,
                path: path@,
            },
        }
    }
}

/// Each source, as text.
pub open spec fn sources_view(s: Seq<FileSource>) -> Seq<SourceView> {
    s.map_values(|f: FileSource| f@)
}

/// The directory of the themes of `area`: `root/app/design/{area}`.
pub open spec fn design_dir_spec(root: Seq<char>, area: Area) -> Seq<char> {
    path_join(path_join(path_join(root, "app"@), "design"@), area.name_of())
}

/// The directory of the themes of `area` under `magento_root`.
pub fn design_dir(magento_root: &str, area: Area) -> (r: String)
    ensures
        r@ == design_dir_spec(magento_root@, area),
{
    let a = join_path(magento_root, "app");
    let d = join_path(a.as_str(), "design");
    join_path(d.as_str(), area.as_str())
}

/// The descriptor file of the theme in `theme_dir`.
pub fn theme_descriptor_path(theme_dir: &str) -> (r: String)
    ensures
        r@ == path_join(theme_dir@, "theme.xml"@),
{
    join_path(theme_dir, "theme.xml")
}

/// A theme found in `path`, as vendor `vendor` and name `name`, with descriptor text
/// `xml`: its parent is what the descriptor declares, and its type follows from the
/// descriptor and that parent.
pub fn theme_from_descriptor(vendor: String, name: String, area: Area, path: String, xml: &str) -> (r:
    Theme)
    ensures
        r.vendor == vendor,
        r.name == name,
        r.area == area,
        r.path == path,
        parent_view(r.parent) == declared_parent(xml_events(xml@)),
        r.theme_type == (if is_hyva(
            xml@,
            match r.parent {
                Some(c) => seq![c.0],
                None => seq![],
            },
        ) {
            ThemeType::Hyva
        } else {
            ThemeType::Luma
        }),
{
    let parent = parse_theme_xml(xml);
    let mut names: Vec<String> = Vec::new();
    match &parent {
        Some(c) => {
            names.push(c.0.clone());
        },
        None => {},
    }
    assert(names@ == match parent {
        Some(c) => seq![c.0],
        None => Seq::<String>::empty(),
    }) by {
        match parent {
            Some(c) => {
                assert(names@ =~= seq![c.0]);
            },
            None => {
                assert(names@ =~= Seq::<String>::empty());
            },
        }
    }
    let theme_type = detect_theme_type(xml, names.as_slice());
    Theme { vendor, name, area, path, parent, theme_type }
}

/// The `web` directory of `theme`.
pub fn theme_web_dir(theme: &Theme) -> (r: String)
    ensures
        r@ == path_join(theme.path@, "web"@),
{
    join_path(theme.path.as_str(), "web")
}

/// The layer of a theme's own `web` directory, present when that directory exists.
pub open spec fn theme_web_layer(theme: Theme, web_exists: bool) -> Seq<SourceView> {
    if web_exists {
        seq![SourceView::ThemeWeb { theme: theme.code_view(), path: path_join(theme.path@, "web"@) }]
    } else {
        seq![]
    }
}

/// The theme's own `web` directory as a source, if `web_exists` says it exists.
pub fn scan_theme_web_sources(theme: &Theme, web_exists: bool) -> (r: Vec<FileSource>)
    ensures
        sources_view(r@) == theme_web_layer(*theme, web_exists),
{
    let mut out: Vec<FileSource> = Vec::new();
    if web_exists {
        out.push(FileSource::ThemeWeb { theme: theme.full_name(), path: theme_web_dir(theme) });
        assert(sources_view(out@) =~= theme_web_layer(*theme, web_exists));
    } else {
        assert(sources_view(out@) =~= theme_web_layer(*theme, web_exists));
    }
    out
}

/// The shared library directory `root/lib/web`.
pub open spec fn library_dir_spec(root: Seq<char>) -> Seq<char> {
    path_join(path_join(root, "lib"@), "web"@)
}

/// The shared library directory under `magento_root`.
pub fn library_dir(magento_root: &str) -> (r: String)
    ensures
        r@ == library_dir_spec(magento_root@),
{
    let l = join_path(magento_root, "lib");
    join_path(l.as_str(), "web")
}

/// The library layer, present when the library directory exists.
pub open spec fn library_layer(root: Seq<char>, lib_exists: bool) -> Seq<SourceView> {
    if lib_exists {
        seq![SourceView::Library { path: library_dir_spec(root) }]
    } else {
        seq![]
    }
}

/// The shared library directory as a source, if `lib_exists` says it exists.
pub fn scan_library_sources(magento_root: &str, lib_exists: bool) -> (r: Vec<FileSource>)
    ensures
        sources_view(r@) == library_layer(magento_root@, lib_exists),
{
    let mut out: Vec<FileSource> = Vec::new();
    if lib_exists {
        out.push(FileSource::Library { path: library_dir(magento_root) });
    }
    assert(sources_view(out@) =~= library_layer(magento_root@, lib_exists));
    out
}

/// A subdirectory of a theme directory.
#[derive(Debug, Clone)]
pub struct ThemeSubdir {
    /// Its name.
    pub name: String,
    /// Whether it holds a `web` directory.
    pub has_web: bool,
}

/// The `web` directory of the module override `module` in `theme`.
pub open spec fn override_dir_spec(theme: Theme, module: Seq<char>) -> Seq<char> {
    path_join(path_join(theme.path@, module), "web"@)
}

/// The `web` directory of the module override `module` in `theme`.
pub fn override_web_dir(theme: &Theme, module: &str) -> (r: String)
    ensures
        r@ == override_dir_spec(*theme, module@),
{
    let m = join_path(theme.path.as_str(), module);
    join_path(m.as_str(), "web")
}

/// A subdirectory is a module override when its name holds `_` (as in
/// `Magento_Catalog`) and it has a `web` directory.
pub open spec fn is_override(d: ThemeSubdir) -> bool {
    index_of(d.name@, '_') < d.name@.len() && d.has_web
}

/// The module override layers of `theme`, in the order of its subdirectories.
pub open spec fn override_layers(theme: Theme, subdirs: Seq<ThemeSubdir>) -> Seq<SourceView>
    decreases subdirs.len(),
{
    if subdirs.len() == 0 {
        seq![]
    } else {
        let rest = override_layers(theme, subdirs.drop_last());
        let d = subdirs.last();
        if is_override(d) {
            rest.push(
                SourceView::ThemeModuleOverride {
                    theme: theme.code_view(),
                    module: d.name@,
                    path: override_dir_spec(theme, d.name@),
                },
            )
        } else {
            rest
        }
    }
}

/// The module overrides of `theme` among its subdirectories `subdirs`.
pub fn scan_theme_module_overrides(theme: &Theme, subdirs: &Vec<ThemeSubdir>) -> (r: Vec<FileSource>)
    ensures
        sources_view(r@) == override_layers(*theme, subdirs@),
{
    let mut out: Vec<FileSource> = Vec::new();
    let mut i: usize = 0;
    while i < subdirs.len()
        invariant
            i <= subdirs@.len(),
            sources_view(out@) == override_layers(*theme, subdirs@.subrange(0, i as int)),
        decreases subdirs@.len() - i,
    {
        let d = &subdirs[i];
        assert(subdirs@.subrange(0, i + 1).drop_last() =~= subdirs@.subrange(0, i as int));
        let cs = chars_of(d.name.as_str());
        if find_char(&cs, '_') < cs.len() && d.has_web {
            let ghost before = out@;
            out.push(
                FileSource::ThemeModuleOverride {
                    theme: theme.full_name(),
                    module: d.name.clone(),
                    path: override_web_dir(theme, d.name.as_str()),
                },
            );
            assert(sources_view(out@) =~= sources_view(before).push(
                SourceView::ThemeModuleOverride {
                    theme: theme.code_view(),
                    module: d.name@,
                    path: override_dir_spec(*theme, d.name@),
                },
            ));
        }
        i = i + 1;
    }
    assert(subdirs@.subrange(0, i as int) =~= subdirs@);
    out
}

/// The candidate `web` directories of a vendor package, in priority order:
/// `view/{area}/web`, `src/view/{area}/web`, `view/base/web`, `src/view/base/web`.
pub open spec fn module_web_dirs_spec(package: Seq<char>, area: Area) -> Seq<Seq<char>> {
    let src = path_join(package, "src"@);
    seq![
        path_join(path_join(path_join(package, "view"@), area.name_of()), "web"@),
        path_join(path_join(path_join(src, "view"@), area.name_of()), "web"@),
        path_join(path_join(path_join(package, "view"@), "base"@), "web"@),
        path_join(path_join(path_join(src, "view"@), "base"@), "web"@),
    ]
}

/// `package/a/b/web`.
fn view_web_dir(package: &str, a: &str, b: &str) -> (r: String)
    ensures
        r@ == path_join(path_join(path_join(package@, a@), b@), "web"@),
{
    let x = join_path(package, a);
    let y = join_path(x.as_str(), b);
    join_path(y.as_str(), "web")
}

/// The candidate `web` directories of the vendor package in `package_path`.
pub fn module_web_dirs(package_path: &str, area: Area) -> (r: Vec<String>)
    ensures
        r@.len() == 4,
        forall|k: int| 0 <= k < 4 ==> (#[trigger] r@[k])@ == module_web_dirs_spec(package_path@, area)[k],
{
    let src = join_path(package_path, "src");
    let a = area.as_str();
    let d0 = view_web_dir(package_path, "view", a);
    let d1 = view_web_dir(src.as_str(), "view", a);
    let d2 = view_web_dir(package_path, "view", "base");
    let d3 = view_web_dir(src.as_str(), "view", "base");
    let r = vec![d0, d1, d2, d3];
    r
}

/// The module descriptors of the vendor package in `package_path`, in the order in
/// which they are tried: `etc/module.xml`, then `src/etc/module.xml`.
pub fn module_descriptor_paths(package_path: &str) -> (r: Vec<String>)
    ensures
        r@.len() == 2,
        r@[0]@ == path_join(path_join(package_path@, "etc"@), "module.xml"@),
        r@[1]@ == path_join(path_join(path_join(package_path@, "src"@), "etc"@), "module.xml"@),
{
    let e = join_path(package_path, "etc");
    let first = join_path(e.as_str(), "module.xml");
    let s = join_path(package_path, "src");
    let se = join_path(s.as_str(), "etc");
    let second = join_path(se.as_str(), "module.xml");
    vec![first, second]
}

/// The module name that a module descriptor declares in the `name` attribute of its
/// `<module>` tag; `None` when there is none or the XML is malformed.
pub fn parse_module_xml(xml: &str) -> (r: Option<String>)
    ensures
        opt_text(r) == declared_module(xml_events(xml@)),
{
    let events = read_events(xml);
    module_name_from_events(&events)
}

/// A vendor package, as observed on disk.
#[derive(Debug, Clone)]
pub struct ModulePackage {
    /// Its directory.
    pub path: String,
    /// The module name its descriptor declares, if any.
    pub module_name: Option<String>,
    /// Which of its candidate `web` directories exist (see [`module_web_dirs`]).
    pub present: Vec<bool>,
}

/// The layer of candidate `k` of a package, present when the package has a module
/// name and that directory exists.
pub open spec fn package_layer(p: ModulePackage, area: Area, k: int) -> Seq<SourceView> {
    match p.module_name {
        Some(m) => if k < p.present@.len() && p.present@[k] {
            seq![
                SourceView::VendorModule {
                    module: m@,
                    path: module_web_dirs_spec(p.path@, area)[k],
                },
            ]
        } else {
            seq![]
        },
        None => seq![],
    }
}

/// The layers of one package, in the order of its candidate directories.
pub open spec fn package_layers(p: ModulePackage, area: Area) -> Seq<SourceView> {
    package_layer(p, area, 0) + package_layer(p, area, 1) + package_layer(p, area, 2)
        + package_layer(p, area, 3)
}

/// The layers of the vendor packages, package by package.
pub open spec fn vendor_layers(ps: Seq<ModulePackage>, area: Area) -> Seq<SourceView>
    decreases ps.len(),
{
    if ps.len() == 0 {
        seq![]
    } else {
        vendor_layers(ps.drop_last(), area) + package_layers(ps.last(), area)
    }
}

/// The sources of the vendor packages `packages` for `area`.
pub fn scan_vendor_module_sources(packages: &Vec<ModulePackage>, area: Area) -> (r: Vec<FileSource>)
    ensures
        sources_view(r@) == vendor_layers(packages@, area),
{
    let mut out: Vec<FileSource> = Vec::new();
    let mut i: usize = 0;
    while i < packages.len()
        invariant
            i <= packages@.len(),
            sources_view(out@) == vendor_layers(packages@.subrange(0, i as int), area),
        decreases packages@.len() - i,
    {
        let p = &packages[i];
        assert(packages@.subrange(0, i + 1).drop_last() =~= packages@.subrange(0, i as int));
        let ghost start = sources_view(out@);
        match &p.module_name {
            Some(m) => {
                let dirs = module_web_dirs(p.path.as_str(), area);
                let mut k: usize = 0;
                while k < 4
                    invariant
                        k <= 4,
                        dirs@.len() == 4,
                        forall|j: int|
                            0 <= j < 4 ==> (#[trigger] dirs@[j])@ == module_web_dirs_spec(p.path@, area)[j],
                        p.module_name == Some(*m),
                        sources_view(out@) == start + (if k == 0 {
                            seq![]
                        } else if k == 1 {
                            package_layer(*p, area, 0)
                        } else if k == 2 {
                            package_layer(*p, area, 0) + package_layer(*p, area, 1)
                        } else if k == 3 {
                            package_layer(*p, area, 0) + package_layer(*p, area, 1) + package_layer(*p, area, 2)
                        } else {
                            package_layers(*p, area)
                        }),
                    decreases 4 - k,
                {
                    let ghost before = sources_view(out@);
                    if k < p.present.len() && p.present[k] {
                        out.push(FileSource::VendorModule { module: m.clone(), path: dirs[k].clone() });
                        assert(sources_view(out@) =~= before + package_layer(*p, area, k as int));
                    } else {
                        assert(sources_view(out@) =~= before + package_layer(*p, area, k as int));
                    }
                    k = k + 1;
                    assert(sources_view(out@) =~= start + (if k == 1 {
                        package_layer(*p, area, 0)
                    } else if k == 2 {
                        package_layer(*p, area, 0) + package_layer(*p, area, 1)
                    } else if k == 3 {
                        package_layer(*p, area, 0) + package_layer(*p, area, 1) + package_layer(*p, area, 2)
                    } else {
                        package_layers(*p, area)
                    }));
                }
            },
            None => {
                assert(package_layers(*p, area) =~= seq![]);
                assert(start + package_layers(*p, area) =~= start);
            },
        }
        i = i + 1;
    }
    assert(packages@.subrange(0, i as int) =~= packages@);
    out
}

/// What was observed on disk for the layers of a theme.
#[derive(Debug, Clone)]
pub struct ThemeLayout {
    /// Whether the theme has a `web` directory.
    pub has_web: bool,
    /// The theme's subdirectories.
    pub subdirs: Vec<ThemeSubdir>,
}

/// The layers of one theme: its module overrides, then its own `web` directory.
pub open spec fn theme_layers(theme: Theme, layout: ThemeLayout) -> Seq<SourceView> {
    override_layers(theme, layout.subdirs@) + theme_web_layer(theme, layout.has_web)
}

/// The layers of the first `n` ancestors in `chain`, nearest first; `layouts[k + 1]`
/// is what was observed for `chain[k]`.
pub open spec fn ancestor_layers(chain: Seq<&Theme>, layouts: Seq<ThemeLayout>, n: int) -> Seq<
    SourceView,
>
    decreases n,
{
    if n <= 0 {
        seq![]
    } else {
        ancestor_layers(chain, layouts, n - 1) + theme_layers(*chain[n - 1], layouts[n])
    }
}

/// What was observed on disk for every layer of a theme.
#[derive(Debug, Clone)]
pub struct SourceFacts {
    /// For the theme itself, then for each ancestor, nearest first.
    pub layouts: Vec<ThemeLayout>,
    /// The vendor packages.
    pub packages: Vec<ModulePackage>,
    /// Whether the shared library directory exists.
    pub library: bool,
}

/// All layers of `theme`, highest priority first: the theme's module overrides, its
/// own `web` directory, the same two for each ancestor (nearest first), the vendor
/// modules, and the shared library.
pub open spec fn file_sources(theme: Theme, chain: Seq<&Theme>, root: Seq<char>, facts: SourceFacts) -> Seq<
    SourceView,
> {
    theme_layers(theme, facts.layouts@[0]) + ancestor_layers(chain, facts.layouts@, chain.len() as int)
        + vendor_layers(facts.packages@, theme.area) + library_layer(root, facts.library)
}

/// `v` is a module override belonging to the theme `code`.
pub open spec fn is_override_of(v: SourceView, code: Seq<char>) -> bool {
    match v {
        SourceView::ThemeModuleOverride { theme, .. } => theme == code,
        _ => false,
    }
}

/// Every override layer of a theme is a module override of that theme.
pub proof fn lemma_override_layers(theme: Theme, subdirs: Seq<ThemeSubdir>)
    ensures
        forall|i: int|
            0 <= i < override_layers(theme, subdirs).len() ==> is_override_of(
                #[trigger] override_layers(theme, subdirs)[i],
                theme.code_view(),
            ),
    decreases subdirs.len(),
{
    if subdirs.len() > 0 {
        let rest = override_layers(theme, subdirs.drop_last());
        let all = override_layers(theme, subdirs);
        lemma_override_layers(theme, subdirs.drop_last());
        assert forall|i: int| 0 <= i < all.len() implies is_override_of(
            #[trigger] all[i],
            theme.code_view(),
        ) by {
            if i < rest.len() {
                assert(all[i] == rest[i]);
            }
        }
    }
}

/// The layers of a theme come in priority order: first the theme's own module
/// overrides, then its own `web` directory, and the shared library last of all.
pub proof fn lemma_source_priority(
    theme: Theme,
    chain: Seq<&Theme>,
    root: Seq<char>,
    facts: SourceFacts,
)
    requires
        facts.layouts@.len() == chain.len() + 1,
    ensures
        ({
            let s = file_sources(theme, chain, root, facts);
            let n = override_layers(theme, facts.layouts@[0].subdirs@).len() as int;
            &&& n <= s.len()
            &&& forall|i: int|
                0 <= i < n ==> is_override_of(#[trigger] s[i], theme.code_view())
            &&& facts.layouts@[0].has_web ==> n < s.len() && s[n] == SourceView::ThemeWeb {
                theme: theme.code_view(),
                path: path_join(theme.path@, "web"@),
            }
            &&& facts.library ==> s.len() > 0 && s[s.len() - 1] == SourceView::Library {
                path: library_dir_spec(root),
            }
            &&& facts.layouts@[0].has_web && facts.library ==> n < s.len() - 1
        }),
{
    let s = file_sources(theme, chain, root, facts);
    let ovr = override_layers(theme, facts.layouts@[0].subdirs@);
    let own = theme_layers(theme, facts.layouts@[0]);
    let rest = ancestor_layers(chain, facts.layouts@, chain.len() as int) + vendor_layers(
        facts.packages@,
        theme.area,
    );
    let lib = library_layer(root, facts.library);
    lemma_override_layers(theme, facts.layouts@[0].subdirs@);
    assert(s =~= own + rest + lib);
    assert forall|i: int| 0 <= i < ovr.len() implies s[i] == ovr[i] by {
        assert(own[i] == ovr[i]);
    }
    if facts.layouts@[0].has_web {
        assert(own[ovr.len() as int] == theme_web_layer(theme, true)[0]);
    }
    if facts.library {
        assert(s[s.len() - 1] == lib[0]);
    }
}

/// The sources of `theme`, in priority order; see [`file_sources`].
pub fn collect_file_sources(
    theme: &Theme,
    parent_chain: &[&Theme],
    magento_root: &str,
    facts: &SourceFacts,
) -> (r: Vec<FileSource>)
    requires
        facts.layouts@.len() == parent_chain@.len() + 1,
    ensures
        sources_view(r@) == file_sources(*theme, parent_chain@, magento_root@, *facts),
{
    let mut sources: Vec<FileSource> = Vec::new();
    let mut part = scan_theme_module_overrides(theme, &facts.layouts[0].subdirs);
    sources.append(&mut part);
    let mut part = scan_theme_web_sources(theme, facts.layouts[0].has_web);
    sources.append(&mut part);
    assert(sources_view(sources@) =~= theme_layers(*theme, facts.layouts@[0]));
    let ghost own = sources_view(sources@);
    let mut i: usize = 0;
    while i < parent_chain.len()
        invariant
            i <= parent_chain@.len(),
            facts.layouts@.len() == parent_chain@.len() + 1,
            sources_view(sources@) == own + ancestor_layers(parent_chain@, facts.layouts@, i as int),
        decreases parent_chain@.len() - i,
    {
        let parent: &Theme = parent_chain[i];
        let layout = &facts.layouts[i + 1];
        let ghost before = sources_view(sources@);
        let mut part = scan_theme_module_overrides(parent, &layout.subdirs);
        sources.append(&mut part);
        let mut part = scan_theme_web_sources(parent, layout.has_web);
        sources.append(&mut part);
        assert(sources_view(sources@) =~= before + theme_layers(*parent, *layout));
        i = i + 1;
    }
    let ghost upto = sources_view(sources@);
    let mut part = scan_vendor_module_sources(&facts.packages, theme.area);
    sources.append(&mut part);
    assert(sources_view(sources@) =~= upto + vendor_layers(facts.packages@, theme.area));
    let ghost upto = sources_view(sources@);
    let mut part = scan_library_sources(magento_root, facts.library);
    sources.append(&mut part);
    assert(sources_view(sources@) =~= upto + library_layer(magento_root@, facts.library));
    sources
}

} // verus!
