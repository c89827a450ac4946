//! Build statistics: the assets, the modules and the server-component records
//! of a build, and the table of assets printed after it.
use vstd::prelude::*;
use crate::text::{owned, cat, str_eq, ends_with, has_suffix, sorted_positions, lex_le, strings_view, copy_strings};
use crate::vec_map::VecMap;
use crate::rsc::{RscClientInfo, RscCssModules};

verus! {

/// An emitted file: its kind, its size in bytes, its name, the name with its
/// content hash, the chunk it belongs to and its path.
pub struct AssetsInfo {
    pub assets_type: String,
    pub size: u64,
    pub name: String,
    pub hashname: String,
    pub chunk_id: String,
    pub path: String,
}

/// An asset as values.
pub open spec fn asset_view(a: AssetsInfo) -> (Seq<char>, u64, Seq<char>, Seq<char>, Seq<char>, Seq<char>) {
    (a.assets_type@, a.size, a.name@, a.hashname@, a.chunk_id@, a.path@)
}

pub open spec fn assets_view(s: Seq<AssetsInfo>) -> Seq<(Seq<char>, u64, Seq<char>, Seq<char>, Seq<char>, Seq<char>)> {
    s.map_values(|a: AssetsInfo| asset_view(a))
}

impl AssetsInfo {
    pub fn copy(&self) -> (r: AssetsInfo)
        ensures
            asset_view(r) == asset_view(*self),
    {
        AssetsInfo {
            assets_type: owned(self.assets_type.as_str()),
            size: self.size,
            name: owned(self.name.as_str()),
            hashname: owned(self.hashname.as_str()),
            chunk_id: owned(self.chunk_id.as_str()),
            path: owned(self.path.as_str()),
        }
    }
}

/// A module of the build with the ids of its dependencies and dependents.
pub struct ModuleInfo {
    pub id: String,
    pub dependencies: Vec<String>,
    pub dependents: Vec<String>,
}

/// A module record as values.
pub open spec fn module_info_view(m: ModuleInfo) -> (Seq<char>, Seq<Seq<char>>, Seq<Seq<char>>) {
    (m.id@, strings_view(m.dependencies@), strings_view(m.dependents@))
}

impl ModuleInfo {
    pub fn copy(&self) -> (r: ModuleInfo)
        ensures
            module_info_view(r) == module_info_view(*self),
    {
        ModuleInfo {
            id: owned(self.id.as_str()),
            dependencies: copy_strings(&self.dependencies),
            dependents: copy_strings(&self.dependents),
        }
    }
}

/// The paths of client components.
pub open spec fn client_paths(s: Seq<RscClientInfo>) -> Seq<Seq<char>> {
    s.map_values(|c: RscClientInfo| c.path@)
}

/// The paths of CSS modules.
pub open spec fn css_paths(s: Seq<RscCssModules>) -> Seq<Seq<char>> {
    s.map_values(|c: RscCssModules| c.path@)
}

/// The modules of `m` after recording each of `infos` in turn under its id.
pub open spec fn record_modules(m: Map<Seq<char>, ModuleInfo>, infos: Seq<ModuleInfo>) -> Map<Seq<char>, ModuleInfo>
    decreases infos.len(),
{
    if infos.len() == 0 {
        m
    } else {
        record_modules(m, infos.drop_last()).insert(infos.last().id@, infos.last())
    }
}

/// What a build records for its statistics.
pub struct StatsInfo {
    pub assets: Vec<AssetsInfo>,
    pub rsc_client_components: Vec<RscClientInfo>,
    pub rsc_css_modules: Vec<RscCssModules>,
    pub modules: VecMap<String, ModuleInfo>,
}

impl StatsInfo {
    /// The module map has distinct keys.
    pub open spec fn wf(&self) -> bool {
        self.modules.wf()
    }

    /// Nothing recorded.
    pub fn new() -> (r: StatsInfo)
        ensures
            r.wf(),
            r.assets@.len() == 0,
            r.rsc_client_components@.len() == 0,
            r.rsc_css_modules@.len() == 0,
            r.modules.map() == Map::<Seq<char>, ModuleInfo>::empty(),
    {
        StatsInfo {
            assets: Vec::new(),
            rsc_client_components: Vec::new(),
            rsc_css_modules: Vec::new(),
            modules: VecMap::new(),
        }
    }

    /// Records an asset of kind `asset`.
    pub fn add_assets(&mut self, size: u64, name: String, chunk_id: String, path: String, hashname: String)
        ensures
            assets_view(final(self).assets@) == assets_view(old(self).assets@).push(
                ("asset"@, size, name@, hashname@, chunk_id@, path@),
            ),
            final(self).rsc_client_components == old(self).rsc_client_components,
            final(self).rsc_css_modules == old(self).rsc_css_modules,
            final(self).modules == old(self).modules,
    {
        self.assets.push(AssetsInfo { assets_type: owned("asset"), size, name, chunk_id, path, hashname });
        assert(assets_view(self.assets@) =~= assets_view(old(self).assets@).push(
            ("asset"@, size, name@, hashname@, chunk_id@, path@),
        ));
    }

    /// Forgets the assets.
    pub fn clear_assets(&mut self)
        ensures
            final(self).assets@.len() == 0,
            final(self).rsc_client_components == old(self).rsc_client_components,
            final(self).rsc_css_modules == old(self).rsc_css_modules,
            final(self).modules == old(self).modules,
    {
        self.assets.clear();
    }

    /// A copy of the assets, in the order they were recorded.
    pub fn get_assets(&self) -> (r: Vec<AssetsInfo>)
        ensures
            assets_view(r@) == assets_view(self.assets@),
    {
        let mut r: Vec<AssetsInfo> = Vec::new();
        let mut i: usize = 0;
        while i < self.assets.len()
            invariant
                i <= self.assets@.len(),
                assets_view(r@) == assets_view(self.assets@.take(i as int)),
            decreases self.assets@.len() - i,
        {
            let ghost before = r@;
            r.push(self.assets[i].copy());
            assert(self.assets@.take(i + 1) =~= self.assets@.take(i as int).push(self.assets@[i as int]));
            assert(assets_view(r@) =~= assets_view(before).push(asset_view(self.assets@[i as int])));
            assert(assets_view(r@) =~= assets_view(self.assets@.take(i + 1)));
            i = i + 1;
        }
        assert(self.assets@.take(i as int) =~= self.assets@);
        r
    }

    /// Records each module under its id; a later record of an id replaces
    /// an earlier one.
    pub fn parse_modules(&mut self, infos: Vec<ModuleInfo>)
        requires
            old(self).wf(),
        ensures
            final(self).wf(),
            final(self).modules.map() == record_modules(old(self).modules.map(), infos@),
            final(self).assets == old(self).assets,
            final(self).rsc_client_components == old(self).rsc_client_components,
            final(self).rsc_css_modules == old(self).rsc_css_modules,
    {
        let ghost all = infos@;
        let mut infos = infos;
        let mut rest: Vec<ModuleInfo> = Vec::new();
        // take the records from the back, then record them from the front
        while infos.len() > 0
            invariant
                rest@.len() + infos@.len() == all.len(),
                forall|j: int| 0 <= j < infos@.len() ==> infos@[j] == all[j],
                forall|j: int| 0 <= j < rest@.len() ==> rest@[j] == all[all.len() - 1 - j],
            decreases infos@.len(),
        {
            let info = infos.pop().unwrap();
            rest.push(info);
        }
        let mut i: usize = 0;
        let n = rest.len();
        while rest.len() > 0
            invariant
                self.wf(),
                n == all.len(),
                rest@.len() + i == n,
                forall|j: int| 0 <= j < rest@.len() ==> rest@[j] == all[n - 1 - j],
                self.modules.map() == record_modules(old(self).modules.map(), all.take(i as int)),
                self.assets == old(self).assets,
                self.rsc_client_components == old(self).rsc_client_components,
                self.rsc_css_modules == old(self).rsc_css_modules,
            decreases rest@.len(),
        {
            let info = rest.pop().unwrap();
            assert(info == all[i as int]);
            assert(all.take(i + 1).drop_last() =~= all.take(i as int));
            let id = owned(info.id.as_str());
            self.modules.insert(id, info);
            i = i + 1;
        }
        assert(all.take(i as int) =~= all);
    }

    /// A copy of the module records.
    pub fn get_modules(&self) -> (r: VecMap<String, ModuleInfo>)
        requires
            self.wf(),
        ensures
            r.wf(),
            r.map().dom() == self.modules.map().dom(),
            forall|k: Seq<char>| #[trigger] r.map().contains_key(k)
                ==> module_info_view(r.map()[k]) == module_info_view(self.modules.map()[k]),
    {
        let mut r: VecMap<String, ModuleInfo> = VecMap::new();
        let mut i: usize = 0;
        let n = self.modules.len();
        while i < n
            invariant
                self.wf(),
                r.wf(),
                n == self.modules.seq().len(),
                i <= n,
                forall|k: Seq<char>| #[trigger] r.map().contains_key(k)
                    <==> exists|j: int| 0 <= j < i && self.modules.seq()[j].0@ == k,
                forall|k: Seq<char>| #[trigger] r.map().contains_key(k)
                    ==> module_info_view(r.map()[k]) == module_info_view(self.modules.map()[k]),
            decreases n - i,
        {
            let (k, v) = self.modules.entry_at(i);
            proof { self.modules.lemma_map_at(i as int); }
            r.insert(owned(k.as_str()), v.copy());
            proof {
                assert forall|key: Seq<char>| #[trigger] r.map().contains_key(key)
                    <==> exists|j: int| 0 <= j < i + 1 && self.modules.seq()[j].0@ == key by {
                    if key == k@ {
                        assert(self.modules.seq()[i as int].0@ == key);
                    }
                }
            }
            i = i + 1;
        }
        proof {
            assert forall|key: Seq<char>| r.map().dom().contains(key) <==> self.modules.map().dom().contains(key) by {
                if self.modules.map().contains_key(key) {
                    let j = choose|j: int| 0 <= j < self.modules.seq().len() && #[trigger] self.modules.seq()[j].0@ == key;
                    assert(self.modules.seq()[j].0@ == key);
                }
            }
            assert(r.map().dom() =~= self.modules.map().dom());
        }
        r
    }

    /// Records a client component.
    pub fn add_rsc_client_component(&mut self, rsc_client_component: RscClientInfo)
        ensures
            final(self).rsc_client_components@ == old(self).rsc_client_components@.push(rsc_client_component),
            final(self).assets == old(self).assets,
            final(self).rsc_css_modules == old(self).rsc_css_modules,
            final(self).modules == old(self).modules,
    {
        self.rsc_client_components.push(rsc_client_component);
    }

    /// A copy of the client components, in the order they were recorded.
    pub fn get_rsc_client_components(&self) -> (r: Vec<RscClientInfo>)
        ensures
            client_paths(r@) == client_paths(self.rsc_client_components@),
    {
        let mut r: Vec<RscClientInfo> = Vec::new();
        let mut i: usize = 0;
        while i < self.rsc_client_components.len()
            invariant
                i <= self.rsc_client_components@.len(),
                client_paths(r@) == client_paths(self.rsc_client_components@.take(i as int)),
            decreases self.rsc_client_components@.len() - i,
        {
            let ghost before = r@;
            r.push(RscClientInfo { path: owned(self.rsc_client_components[i].path.as_str()) });
            assert(self.rsc_client_components@.take(i + 1)
                =~= self.rsc_client_components@.take(i as int).push(self.rsc_client_components@[i as int]));
            assert(client_paths(r@) =~= client_paths(before).push(self.rsc_client_components@[i as int].path@));
            assert(client_paths(r@) =~= client_paths(self.rsc_client_components@.take(i + 1)));
            i = i + 1;
        }
        assert(self.rsc_client_components@.take(i as int) =~= self.rsc_client_components@);
        r
    }

    /// Records a CSS module.
    pub fn add_rsc_css_module(&mut self, rsc_css_module: RscCssModules)
        ensures
            final(self).rsc_css_modules@ == old(self).rsc_css_modules@.push(rsc_css_module),
            final(self).assets == old(self).assets,
            final(self).rsc_client_components == old(self).rsc_client_components,
            final(self).modules == old(self).modules,
    {
        self.rsc_css_modules.push(rsc_css_module);
    }

    /// A copy of the CSS modules, in the order they were recorded.
    pub fn get_rsc_css_modules(&self) -> (r: Vec<RscCssModules>)
        ensures
            css_paths(r@) == css_paths(self.rsc_css_modules@),
    {
        let mut r: Vec<RscCssModules> = Vec::new();
        let mut i: usize = 0;
        while i < self.rsc_css_modules.len()
            invariant
                i <= self.rsc_css_modules@.len(),
                css_paths(r@) == css_paths(self.rsc_css_modules@.take(i as int)),
            decreases self.rsc_css_modules@.len() - i,
        {
            let ghost before = r@;
            r.push(RscCssModules { path: owned(self.rsc_css_modules[i].path.as_str()) });
            assert(self.rsc_css_modules@.take(i + 1)
                =~= self.rsc_css_modules@.take(i as int).push(self.rsc_css_modules@[i as int]));
            assert(css_paths(r@) =~= css_paths(before).push(self.rsc_css_modules@[i as int].path@));
            assert(css_paths(r@) =~= css_paths(self.rsc_css_modules@.take(i + 1)));
            i = i + 1;
        }
        assert(self.rsc_css_modules@.take(i as int) =~= self.rsc_css_modules@);
        r
    }
}

} // verus!

verus! {

/// What a file of the asset table is, which decides its color.
#[derive(Clone, Copy, Debug, PartialEq, Eq, Structural)]
pub enum AssetKind {
    Js,
    Css,
    Other,
}

/// The kind of the file named `file_name`.
pub open spec fn kind_of(file_name: Seq<char>) -> AssetKind {
    if has_suffix(file_name, ".js"@) {
        AssetKind::Js
    } else if has_suffix(file_name, ".css"@) {
        AssetKind::Css
    } else {
        AssetKind::Other
    }
}

/// `n` spaces.
pub open spec fn spaces(n: nat) -> Seq<char> {
    Seq::new(n, |i: int| ' ')
}

/// `text` padded with spaces to `width` chars, in front or behind.
pub open spec fn padded(text: Seq<char>, width: nat, front: bool) -> Seq<char> {
    if front {
        spaces((width - text.len()) as nat) + text
    } else {
        text + spaces((width - text.len()) as nat)
    }
}

/// Pads `text` with spaces to `max_length` chars, in front or behind.
pub fn pad_string(text: &str, max_length: usize, front: bool) -> (r: String)
    requires
        text@.len() <= max_length,
    ensures
        r@ == padded(text@, max_length as nat, front),
{
    proof { reveal_strlit(" "); }
    let n = max_length - text.unicode_len();
    let mut pad = String::new();
    let mut k: usize = 0;
    while k < n
        invariant
            k <= n,
            pad@ == spaces(k as nat),
        decreases n - k,
    {
        proof { reveal_strlit(" "); }
        pad.append(" ");
        assert(pad@ =~= spaces((k + 1) as nat));
        k = k + 1;
    }
    if front {
        pad.append(text);
        pad
    } else {
        let mut r = owned(text);
        r.append(pad.as_str());
        r
    }
}

/// An entry of the table, as values: the file name with its hash, the size,
/// and the size as text.
pub open spec fn entries_of(assets: Seq<AssetsInfo>, texts: Seq<String>, order: Seq<usize>) -> Seq<(Seq<char>, u64, Seq<char>)> {
    order.map_values(|k: usize| (assets[k as int].hashname@, assets[k as int].size, texts[k as int]@))
}

/// `order` lists the positions of `assets` once each, by name in
/// lexicographic order, assets of equal names in their own order.
pub open spec fn name_order(assets: Seq<AssetsInfo>, order: Seq<usize>) -> bool {
    &&& order.len() == assets.len()
    &&& forall|i: int| 0 <= i < order.len() ==> order[i] < assets.len()
    &&& forall|i: int, j: int| 0 <= i < j < order.len() ==> order[i] != order[j]
    &&& forall|i: int, j: int| 0 <= i < j < order.len()
        ==> lex_le(assets[order[i] as int].name@, assets[order[j] as int].name@)
    &&& forall|i: int, j: int| 0 <= i < j < order.len()
        && assets[order[i] as int].name@ == assets[order[j] as int].name@ ==> order[i] < order[j]
}

/// `name` is the source map of the last line.
pub open spec fn map_of_last(name: Seq<char>, lines: Seq<(Seq<char>, u64, Seq<char>, u64, Seq<char>)>) -> bool {
    has_suffix(name, ".map"@) && lines.len() > 0 && name == lines.last().0 + ".map"@
}

/// The lines of the table before padding, one per entry but for a source
/// map that follows its file: that one goes into the file's line. A line
/// is the file name, its size and size text, and its map's size and size
/// text (0 and empty when there is none).
pub open spec fn merge_lines(es: Seq<(Seq<char>, u64, Seq<char>)>) -> Seq<(Seq<char>, u64, Seq<char>, u64, Seq<char>)>
    decreases es.len(),
{
    if es.len() == 0 {
        seq![]
    } else {
        let ls = merge_lines(es.drop_last());
        let e = es.last();
        if map_of_last(e.0, ls) {
            ls.update(ls.len() - 1, (ls.last().0, ls.last().1, ls.last().2, e.1, e.2))
        } else {
            ls.push((e.0, e.1, e.2, 0u64, seq![]))
        }
    }
}

/// The widest size text of the entries that get a line of their own.
pub open spec fn size_width(es: Seq<(Seq<char>, u64, Seq<char>)>) -> nat
    decreases es.len(),
{
    if es.len() == 0 {
        0
    } else {
        let w = size_width(es.drop_last());
        if map_of_last(es.last().0, merge_lines(es.drop_last())) || es.last().2.len() <= w {
            w
        } else {
            es.last().2.len()
        }
    }
}

/// The widest size text of the source maps that go into a line.
pub open spec fn map_width(es: Seq<(Seq<char>, u64, Seq<char>)>) -> nat
    decreases es.len(),
{
    if es.len() == 0 {
        0
    } else {
        let w = map_width(es.drop_last());
        if map_of_last(es.last().0, merge_lines(es.drop_last())) && es.last().2.len() > w {
            es.last().2.len()
        } else {
            w
        }
    }
}

/// The longest file name of the entries.
pub open spec fn name_width(es: Seq<(Seq<char>, u64, Seq<char>)>) -> nat
    decreases es.len(),
{
    if es.len() == 0 {
        0
    } else {
        let w = name_width(es.drop_last());
        if es.last().0.len() > w { es.last().0.len() } else { w }
    }
}

/// `order` lists the positions of `sizes` once each, by size from the
/// largest down, equal sizes in their own order.
pub open spec fn size_order(sizes: Seq<u64>, order: Seq<usize>) -> bool {
    &&& order.len() == sizes.len()
    &&& forall|i: int| 0 <= i < order.len() ==> order[i] < sizes.len()
    &&& forall|i: int, j: int| 0 <= i < j < order.len() ==> order[i] != order[j]
    &&& forall|i: int, j: int| 0 <= i < j < order.len() ==> sizes[order[i] as int] >= sizes[order[j] as int]
    &&& forall|i: int, j: int| 0 <= i < j < order.len()
        && sizes[order[i] as int] == sizes[order[j] as int] ==> order[i] < order[j]
}

/// The sizes of the lines.
pub open spec fn line_sizes(lines: Seq<(Seq<char>, u64, Seq<char>, u64, Seq<char>)>) -> Seq<u64> {
    lines.map_values(|l: (Seq<char>, u64, Seq<char>, u64, Seq<char>)| l.1)
}

/// Positions of `sizes` by size from the largest down, equal sizes in order.
pub fn size_desc_positions(sizes: &Vec<u64>) -> (r: Vec<usize>)
    ensures
        size_order(sizes@, r@),
{
    let mut r: Vec<usize> = Vec::new();
    let mut k: usize = 0;
    while k < sizes.len()
        invariant
            k <= sizes@.len(),
            r@.len() == k,
            forall|i: int| 0 <= i < r@.len() ==> r@[i] < k,
            forall|i: int, j: int| 0 <= i < j < r@.len() ==> r@[i] != r@[j],
            forall|i: int, j: int| 0 <= i < j < r@.len() ==> sizes@[r@[i] as int] >= sizes@[r@[j] as int],
            forall|i: int, j: int| 0 <= i < j < r@.len()
                && sizes@[r@[i] as int] == sizes@[r@[j] as int] ==> r@[i] < r@[j],
        decreases sizes@.len() - k,
    {
        let mut p: usize = 0;
        while p < r.len() && sizes[r[p]] >= sizes[k]
            invariant
                p <= r@.len(),
                k < sizes@.len(),
                forall|i: int| 0 <= i < r@.len() ==> r@[i] < k,
                forall|i: int| 0 <= i < p ==> sizes@[r@[i] as int] >= sizes@[k as int],
            decreases r@.len() - p,
        {
            p = p + 1;
        }
        let ghost old_r = r@;
        r.insert(p, k);
        proof {
            assert forall|i: int| 0 <= i < r@.len() implies r@[i] < k + 1 by {
                if i < p { assert(r@[i] == old_r[i]); } else if i > p { assert(r@[i] == old_r[i - 1]); }
            }
            assert forall|i: int, j: int| 0 <= i < j < r@.len() implies r@[i] != r@[j]
                && sizes@[r@[i] as int] >= sizes@[r@[j] as int]
                && (sizes@[r@[i] as int] == sizes@[r@[j] as int] ==> r@[i] < r@[j]) by {
                if i < p && j == p {
                    assert(r@[i] == old_r[i]);
                } else if i < p && j > p {
                    assert(r@[i] == old_r[i]);
                    assert(r@[j] == old_r[j - 1]);
                } else if i == p && j > p {
                    assert(r@[j] == old_r[j - 1]);
                    if j - 1 > p {
                        assert(sizes@[old_r[p as int] as int] >= sizes@[old_r[j - 1] as int]);
                    }
                } else if i > p {
                    assert(r@[i] == old_r[i - 1]);
                    assert(r@[j] == old_r[j - 1]);
                } else {
                    assert(r@[i] == old_r[i]);
                    assert(r@[j] == old_r[j]);
                }
            }
        }
        k = k + 1;
    }
    r
}

/// A row of the asset table: the file name padded to the widest, its kind,
/// the size right-aligned, and the size of its source map right-aligned
/// when a map with a size above zero went into the row.
pub struct StatsRow {
    pub file_name: String,
    pub kind: AssetKind,
    pub size: String,
    pub map_size: Option<String>,
}

/// A row as values.
pub open spec fn row_view(r: StatsRow) -> (Seq<char>, AssetKind, Seq<char>, Option<Seq<char>>) {
    (r.file_name@, r.kind, r.size@, crate::paths::opt_view(r.map_size))
}

/// The row for a line under directory `dist`, with the widths of the table.
pub open spec fn row_of(
    line: (Seq<char>, u64, Seq<char>, u64, Seq<char>),
    dist: Seq<char>,
    name_w: nat,
    size_w: nat,
    map_w: nat,
) -> (Seq<char>, AssetKind, Seq<char>, Option<Seq<char>>) {
    (
        padded(dist + line.0, dist.len() + name_w + 2, false),
        kind_of(dist + line.0),
        padded(line.2, size_w, true),
        if line.3 == 0 { None } else { Some(padded(line.4, map_w, true)) },
    )
}

/// A line as values.
pub open spec fn line_view(l: (String, u64, String, u64, String)) -> (Seq<char>, u64, Seq<char>, u64, Seq<char>) {
    (l.0@, l.1, l.2@, l.3, l.4@)
}

pub open spec fn lines_view(ls: Seq<(String, u64, String, u64, String)>) -> Seq<(Seq<char>, u64, Seq<char>, u64, Seq<char>)> {
    ls.map_values(|l: (String, u64, String, u64, String)| line_view(l))
}

/// Every line fits the widths of the table.
proof fn lemma_lines_fit(es: Seq<(Seq<char>, u64, Seq<char>)>)
    ensures
        forall|i: int| 0 <= i < merge_lines(es).len() ==> {
            let l = #[trigger] merge_lines(es)[i];
            &&& l.0.len() <= name_width(es)
            &&& l.2.len() <= size_width(es)
            &&& (l.3 != 0 ==> l.4.len() <= map_width(es))
        },
        merge_lines(es).len() <= es.len(),
    decreases es.len(),
{
    if es.len() > 0 {
        lemma_lines_fit(es.drop_last());
        let ls = merge_lines(es.drop_last());
        assert forall|i: int| 0 <= i < merge_lines(es).len() implies {
            let l = #[trigger] merge_lines(es)[i];
            &&& l.0.len() <= name_width(es)
            &&& l.2.len() <= size_width(es)
            &&& (l.3 != 0 ==> l.4.len() <= map_width(es))
        } by {
            if i < ls.len() {
                let l0 = ls[i];
                assert(l0.0.len() <= name_width(es.drop_last()));
            }
        }
    }
}

} // verus!

verus! {

/// `s` with a `/` at its end, added when missing.
pub open spec fn with_slash(s: Seq<char>) -> Seq<char> {
    if s.len() > 0 && s.last() == '/' { s } else { s.push('/') }
}

/// The directory the asset table names files under: the output path
/// relative to the root (the output path itself when it has none), ending
/// with `/`.
pub fn dist_prefix(output_path: &str, root: &str) -> (r: String)
    ensures
        r@ == with_slash(match crate::paths::relative_path(output_path@, root@) {
            Some(p) => p,
            None => output_path@,
        }),
{
    let mut dist = match crate::paths::diff(output_path, root) {
        Some(p) => p,
        None => owned(output_path),
    };
    let ghost d = dist@;
    proof { reveal_strlit("/"); }
    assert("/"@ =~= seq!['/']);
    if !ends_with(dist.as_str(), "/") {
        assert(!(d.len() > 0 && d.last() == '/')) by {
            if d.len() > 0 && d.last() == '/' {
                assert(d.subrange(d.len() - 1, d.len() as int) =~= seq!['/']);
            }
        }
        dist.append("/");
        assert(dist@ =~= d.push('/'));
    } else {
        assert(d.subrange(d.len() - 1, d.len() as int)[0] == '/');
    }
    dist
}

/// The rows of the asset table printed after a build, for files under
/// directory `dist` (which ends with `/`): the assets sorted by name, each
/// source map merged into the line of the file it maps when it follows that
/// file, the lines sorted by size from the largest down. `size_texts[i]` is
/// the size of `assets[i]` as text.
pub fn stats_rows(dist: &str, assets: &Vec<AssetsInfo>, size_texts: &Vec<String>) -> (r: Vec<StatsRow>)
    requires
        size_texts@.len() == assets@.len(),
        dist@.len() + 2 <= usize::MAX,
        forall|i: int| 0 <= i < assets@.len() ==> dist@.len() + (#[trigger] assets@[i]).hashname@.len() + 2 <= usize::MAX,
    ensures
        exists|by_name: Seq<usize>, by_size: Seq<usize>|
            #![trigger size_order(line_sizes(merge_lines(entries_of(assets@, size_texts@, by_name))), by_size)]
            {
                let es = entries_of(assets@, size_texts@, by_name);
                let lines = merge_lines(es);
                &&& name_order(assets@, by_name)
                &&& size_order(line_sizes(lines), by_size)
                &&& r@.len() == lines.len()
                &&& forall|i: int| 0 <= i < r@.len() ==> row_view(#[trigger] r@[i]) == row_of(
                    lines[by_size[i] as int], dist@, name_width(es), size_width(es), map_width(es))
            },
{
    let mut names: Vec<String> = Vec::new();
    let mut i: usize = 0;
    while i < assets.len()
        invariant
            i <= assets@.len(),
            names@.len() == i,
            forall|j: int| 0 <= j < i ==> #[trigger] names@[j]@ == assets@[j].name@,
        decreases assets@.len() - i,
    {
        names.push(owned(assets[i].name.as_str()));
        i = i + 1;
    }
    let p = sorted_positions(&names);
    proof {
        assert forall|j: int| 0 <= j < p@.len() implies #[trigger] names@[p@[j] as int]@ == assets@[p@[j] as int].name@ by {}
        assert(name_order(assets@, p@));
    }
    let ghost es = entries_of(assets@, size_texts@, p@);
    let mut lines: Vec<(String, u64, String, u64, String)> = Vec::new();
    let mut sw: usize = 0;
    let mut mw: usize = 0;
    let mut nw: usize = 0;
    let mut i: usize = 0;
    while i < p.len()
        invariant
            i <= p@.len(),
            p@.len() == assets@.len(),
            size_texts@.len() == assets@.len(),
            forall|j: int| 0 <= j < p@.len() ==> p@[j] < assets@.len(),
            es == entries_of(assets@, size_texts@, p@),
            lines_view(lines@) == merge_lines(es.take(i as int)),
            sw == size_width(es.take(i as int)),
            mw == map_width(es.take(i as int)),
            nw == name_width(es.take(i as int)),
            dist@.len() + nw + 2 <= usize::MAX,
            forall|j: int| 0 <= j < assets@.len() ==> dist@.len() + (#[trigger] assets@[j]).hashname@.len() + 2 <= usize::MAX,
        decreases p@.len() - i,
    {
        let k = p[i];
        let a = &assets[k];
        let text = &size_texts[k];
        let ghost before = es.take(i as int);
        let ghost e = es[i as int];
        assert(es.take(i + 1).drop_last() =~= before);
        assert(es.take(i + 1).last() == e);
        assert(e == (a.hashname@, a.size, text@));
        let n = lines.len();
        let merge = if n > 0 && ends_with(a.hashname.as_str(), ".map") {
            let expect = cat_map(lines[n - 1].0.as_str());
            str_eq(a.hashname.as_str(), expect.as_str())
        } else {
            false
        };
        assert(merge == map_of_last(e.0, merge_lines(before)));
        let hl = a.hashname.unicode_len();
        let tl = text.unicode_len();
        let ghost old_lines = lines@;
        if merge {
            let updated = (
                owned(lines[n - 1].0.as_str()),
                lines[n - 1].1,
                owned(lines[n - 1].2.as_str()),
                a.size,
                owned(text.as_str()),
            );
            lines.set(n - 1, updated);
            assert(lines_view(lines@) =~= lines_view(old_lines).update(n - 1, line_view(updated)));
            if tl > mw {
                mw = tl;
            }
        } else {
            let fresh = (owned(a.hashname.as_str()), a.size, owned(text.as_str()), 0u64, String::new());
            lines.push(fresh);
            assert(lines_view(lines@) =~= lines_view(old_lines).push(line_view(fresh)));
            if tl > sw {
                sw = tl;
            }
        }
        if hl > nw {
            nw = hl;
        }
        i = i + 1;
    }
    assert(es.take(i as int) =~= es);
    proof { lemma_lines_fit(es); }
    let ghost lv = lines_view(lines@);
    let mut sizes: Vec<u64> = Vec::new();
    let mut j: usize = 0;
    while j < lines.len()
        invariant
            j <= lines@.len(),
            lv == lines_view(lines@),
            sizes@ == line_sizes(lv).take(j as int),
        decreases lines@.len() - j,
    {
        sizes.push(lines[j].1);
        assert(sizes@ =~= line_sizes(lv).take(j + 1));
        j = j + 1;
    }
    assert(sizes@ =~= line_sizes(lv));
    let q = size_desc_positions(&sizes);
    let width = dist.unicode_len() + nw + 2;
    let mut rows: Vec<StatsRow> = Vec::new();
    let mut t: usize = 0;
    while t < q.len()
        invariant
            t <= q@.len(),
            size_order(line_sizes(lv), q@),
            lv == lines_view(lines@),
            lv == merge_lines(es),
            width == dist@.len() + name_width(es) + 2,
            sw == size_width(es),
            mw == map_width(es),
            forall|x: int| 0 <= x < lv.len() ==> {
                let l = #[trigger] lv[x];
                &&& l.0.len() <= name_width(es)
                &&& l.2.len() <= size_width(es)
                &&& (l.3 != 0 ==> l.4.len() <= map_width(es))
            },
            rows@.len() == t,
            forall|x: int| 0 <= x < t ==> row_view(#[trigger] rows@[x]) == row_of(
                lv[q@[x] as int], dist@, name_width(es), size_width(es), map_width(es)),
        decreases q@.len() - t,
    {
        let l = &lines[q[t]];
        let ghost lw = lv[q@[t as int] as int];
        assert(line_view(*l) == lw);
        let file = cat(dist, l.0.as_str());
        let file_name = pad_string(file.as_str(), width, false);
        let kind = if ends_with(file.as_str(), ".js") {
            AssetKind::Js
        } else if ends_with(file.as_str(), ".css") {
            AssetKind::Css
        } else {
            AssetKind::Other
        };
        let size = pad_string(l.2.as_str(), sw, true);
        let map_size = if l.3 == 0 {
            None
        } else {
            Some(pad_string(l.4.as_str(), mw, true))
        };
        let row = StatsRow { file_name, kind, size, map_size };
        assert(row_view(row) == row_of(lw, dist@, name_width(es), size_width(es), map_width(es)));
        rows.push(row);
        t = t + 1;
    }
    assert(size_order(line_sizes(merge_lines(entries_of(assets@, size_texts@, p@))), q@));
    rows
}

fn cat_map(s: &str) -> (r: String)
    ensures
        r@ == s@ + ".map"@,
{
    cat(s, ".map")
}

} // verus!

verus! {

/// The kind field of the items of the stats file.
pub enum StatsJsonType {
    Asset(String),
    Module(String),
    Chunk(String),
}

/// A kind as values: 0 for an asset, 1 for a module, 2 for a chunk, and its text.
pub open spec fn json_type_view(t: StatsJsonType) -> (u8, Seq<char>) {
    match t {
        StatsJsonType::Asset(s) => (0u8, s@),
        StatsJsonType::Module(s) => (1u8, s@),
        StatsJsonType::Chunk(s) => (2u8, s@),
    }
}

/// An asset of the stats file.
pub struct StatsJsonAssetsItem {
    pub assets_type: StatsJsonType,
    pub size: u64,
    pub name: String,
    pub path: String,
}

/// A module of a chunk in the stats file.
pub struct StatsJsonChunkModuleItem {
    pub module_type: StatsJsonType,
    pub size: u64,
    pub id: String,
    pub chunks: Vec<String>,
}

/// Where a chunk is loaded from: the importing module, its file, the place
/// of the import and the imported source.
pub struct StatsJsonChunkOriginItem {
    pub module: String,
    pub module_identifier: String,
    pub module_name: String,
    pub loc: String,
    pub request: String,
}

/// A chunk of the stats file.
pub struct StatsJsonChunkItem {
    pub chunk_type: StatsJsonType,
    pub id: String,
    pub files: Vec<String>,
    pub entry: bool,
    pub modules: Vec<StatsJsonChunkModuleItem>,
    pub siblings: Vec<String>,
    pub origins: Vec<StatsJsonChunkOriginItem>,
}

/// An entry point: its name and the chunks it loads, its own last.
pub struct StatsJsonEntryItem {
    pub name: String,
    pub chunks: Vec<String>,
}

/// The stats file of a build.
pub struct StatsJsonMap {
    pub hash: u64,
    pub built_at: i64,
    pub root_path: String,
    pub output_path: String,
    pub assets: Vec<StatsJsonAssetsItem>,
    pub chunk_modules: Vec<StatsJsonChunkModuleItem>,
    pub modules: VecMap<String, ModuleInfo>,
    pub chunks: Vec<StatsJsonChunkItem>,
    pub entrypoints: VecMap<String, StatsJsonEntryItem>,
    pub rsc_client_components: Vec<RscClientInfo>,
    pub rsc_css_modules: Vec<RscCssModules>,
    pub start_time: i64,
    pub end_time: i64,
}

/// What the build knows of a chunk: its id, the name of its entry when it
/// is one, its modules with their file sizes (zero when the file cannot be
/// read), the chunks loaded with it, the imports that load it (each with the
/// importing module, its file, the place of the import and the source), and
/// for an entry the chunks it depends on.
pub struct ChunkInput {
    pub id: String,
    pub entry_name: Option<String>,
    pub modules: Vec<(String, u64)>,
    pub siblings: Vec<String>,
    pub origins: Vec<(String, String, String, String)>,
    pub entry_dependencies: Vec<String>,
}

/// An asset item as values.
pub open spec fn assets_item_view(a: StatsJsonAssetsItem) -> ((u8, Seq<char>), u64, Seq<char>, Seq<char>) {
    (json_type_view(a.assets_type), a.size, a.name@, a.path@)
}

pub open spec fn assets_items_view(s: Seq<StatsJsonAssetsItem>) -> Seq<((u8, Seq<char>), u64, Seq<char>, Seq<char>)> {
    s.map_values(|a: StatsJsonAssetsItem| assets_item_view(a))
}

/// The asset item of each asset: its kind, size, hashed name and path.
pub open spec fn json_assets(assets: Seq<AssetsInfo>) -> Seq<((u8, Seq<char>), u64, Seq<char>, Seq<char>)> {
    assets.map_values(|a: AssetsInfo| ((0u8, a.assets_type@), a.size, a.hashname@, a.path@))
}

/// The asset items of the stats file.
pub fn stats_assets(assets: &Vec<AssetsInfo>) -> (r: Vec<StatsJsonAssetsItem>)
    ensures
        assets_items_view(r@) == json_assets(assets@),
{
    let mut r: Vec<StatsJsonAssetsItem> = Vec::new();
    let mut i: usize = 0;
    while i < assets.len()
        invariant
            i <= assets@.len(),
            assets_items_view(r@) == json_assets(assets@.take(i as int)),
        decreases assets@.len() - i,
    {
        let a = &assets[i];
        let ghost before = r@;
        r.push(StatsJsonAssetsItem {
            assets_type: StatsJsonType::Asset(owned(a.assets_type.as_str())),
            size: a.size,
            name: owned(a.hashname.as_str()),
            path: owned(a.path.as_str()),
        });
        assert(assets@.take(i + 1) =~= assets@.take(i as int).push(assets@[i as int]));
        assert(assets_items_view(r@)
            =~= assets_items_view(before).push(assets_item_view(r@.last())));
        assert(assets_items_view(r@) =~= json_assets(assets@.take(i + 1)));
        i = i + 1;
    }
    assert(assets@.take(i as int) =~= assets@);
    r
}

/// The hashed names of the assets of chunk `id`, in order.
pub open spec fn chunk_files(assets: Seq<AssetsInfo>, id: Seq<char>) -> Seq<Seq<char>>
    decreases assets.len(),
{
    if assets.len() == 0 {
        seq![]
    } else {
        chunk_files(assets.drop_last(), id) + if assets.last().chunk_id@ == id {
            seq![assets.last().hashname@]
        } else {
            seq![]
        }
    }
}

fn files_of_chunk(assets: &Vec<AssetsInfo>, id: &str) -> (r: Vec<String>)
    ensures
        strings_view(r@) == chunk_files(assets@, id@),
{
    let mut r: Vec<String> = Vec::new();
    let mut i: usize = 0;
    while i < assets.len()
        invariant
            i <= assets@.len(),
            strings_view(r@) == chunk_files(assets@.take(i as int), id@),
        decreases assets@.len() - i,
    {
        assert(assets@.take(i + 1).drop_last() =~= assets@.take(i as int));
        let ghost before = r@;
        if str_eq(assets[i].chunk_id.as_str(), id) {
            r.push(owned(assets[i].hashname.as_str()));
            assert(strings_view(r@) =~= strings_view(before).push(assets@[i as int].hashname@));
        }
        assert(strings_view(r@) =~= chunk_files(assets@.take(i + 1), id@));
        i = i + 1;
    }
    assert(assets@.take(i as int) =~= assets@);
    r
}

/// A module item as values.
pub open spec fn module_item_view(m: StatsJsonChunkModuleItem) -> ((u8, Seq<char>), u64, Seq<char>, Seq<Seq<char>>) {
    (json_type_view(m.module_type), m.size, m.id@, strings_view(m.chunks@))
}

pub open spec fn module_items_view(s: Seq<StatsJsonChunkModuleItem>) -> Seq<((u8, Seq<char>), u64, Seq<char>, Seq<Seq<char>>)> {
    s.map_values(|m: StatsJsonChunkModuleItem| module_item_view(m))
}

/// The module items of chunk `chunk`: each module but the virtual ones
/// (whose id holds `?modules`), of kind `module`, listed in that chunk.
pub open spec fn chunk_module_items(modules: Seq<(String, u64)>, chunk: Seq<char>) -> Seq<((u8, Seq<char>), u64, Seq<char>, Seq<Seq<char>>)>
    decreases modules.len(),
{
    if modules.len() == 0 {
        seq![]
    } else {
        let m = modules.last();
        chunk_module_items(modules.drop_last(), chunk) + if crate::text::find_sub(m.0@, "?modules"@) is Some {
            seq![]
        } else {
            seq![((1u8, "module"@), m.1, m.0@, seq![chunk])]
        }
    }
}

#[verifier::spinoff_prover]
#[verifier::rlimit(40)]
fn module_items(modules: &Vec<(String, u64)>, chunk: &str) -> (r: Vec<StatsJsonChunkModuleItem>)
    ensures
        module_items_view(r@) == chunk_module_items(modules@, chunk@),
{
    let mut r: Vec<StatsJsonChunkModuleItem> = Vec::new();
    let mut i: usize = 0;
    while i < modules.len()
        invariant
            i <= modules@.len(),
            module_items_view(r@) == chunk_module_items(modules@.take(i as int), chunk@),
        decreases modules@.len() - i,
    {
        assert(modules@.take(i + 1).drop_last() =~= modules@.take(i as int));
        let ghost before = r@;
        let (id, size) = (&modules[i].0, modules[i].1);
        match crate::text::find_str(id.as_str(), "?modules") {
            Some(_) => {},
            None => {
                let item = StatsJsonChunkModuleItem {
                    module_type: StatsJsonType::Module(owned("module")),
                    size,
                    id: owned(id.as_str()),
                    chunks: vec![owned(chunk)],
                };
                assert(strings_view(item.chunks@) =~= seq![chunk@]);
                r.push(item);
                assert(module_items_view(r@)
                    =~= module_items_view(before).push(module_item_view(item)));
            },
        }
        assert(module_items_view(r@) =~= chunk_module_items(modules@.take(i + 1), chunk@));
        i = i + 1;
    }
    assert(modules@.take(i as int) =~= modules@);
    r
}

/// An origin as values: module, identifier, name, place, request.
pub open spec fn origin_view(o: StatsJsonChunkOriginItem) -> (Seq<char>, Seq<char>, Seq<char>, Seq<char>, Seq<char>) {
    (o.module@, o.module_identifier@, o.module_name@, o.loc@, o.request@)
}

pub open spec fn origins_view(s: Seq<StatsJsonChunkOriginItem>) -> Seq<(Seq<char>, Seq<char>, Seq<char>, Seq<char>, Seq<char>)> {
    s.map_values(|o: StatsJsonChunkOriginItem| origin_view(o))
}

/// The key under which origins are told apart: `module:request`.
pub open spec fn origin_key(o: (String, String, String, String)) -> Seq<char> {
    o.0@ + ":"@ + o.3@
}

/// The origins of a chunk: the first import of each key, in order.
pub open spec fn chunk_origins(deps: Seq<(String, String, String, String)>) -> Seq<(Seq<char>, Seq<char>, Seq<char>, Seq<char>, Seq<char>)>
    decreases deps.len(),
{
    if deps.len() == 0 {
        seq![]
    } else {
        let d = deps.last();
        let earlier = deps.drop_last();
        chunk_origins(earlier) + if exists|j: int| 0 <= j < earlier.len() && origin_key(#[trigger] earlier[j]) == origin_key(d) {
            seq![]
        } else {
            seq![(d.0@, d.0@, d.1@, d.2@, d.3@)]
        }
    }
}

/// Two origins whose module ids hold no `:` have the same key exactly when
/// they have the same module id and the same request.
proof fn lemma_origin_key_injective(a: (String, String, String, String), b: (String, String, String, String))
    requires
        !a.0@.contains(':'),
        !b.0@.contains(':'),
        origin_key(a) == origin_key(b),
    ensures
        a.0@ == b.0@,
        a.3@ == b.3@,
{
    reveal_strlit(":");
    let key = origin_key(a);
    let la = a.0@.len();
    let lb = b.0@.len();
    if la < lb {
        assert(key[la as int] == ':');
        assert(b.0@[la as int] == key[la as int]);
        assert(b.0@.contains(':'));
    }
    if lb < la {
        assert(key[lb as int] == ':');
        assert(a.0@[lb as int] == key[lb as int]);
        assert(a.0@.contains(':'));
    }
    assert(a.0@ =~= key.subrange(0, la as int));
    assert(b.0@ =~= key.subrange(0, lb as int));
    assert(a.3@ =~= key.subrange(la as int + 1, key.len() as int));
    assert(b.3@ =~= key.subrange(lb as int + 1, key.len() as int));
}

/// What the origins of the first `n` imports list, the origins of all of them
/// list too.
proof fn lemma_chunk_origins_grow(deps: Seq<(String, String, String, String)>, n: int, x: (Seq<char>, Seq<char>, Seq<char>, Seq<char>, Seq<char>))
    requires
        0 <= n <= deps.len(),
        chunk_origins(deps.take(n)).contains(x),
    ensures
        chunk_origins(deps).contains(x),
    decreases deps.len(),
{
    if n == deps.len() {
        assert(deps.take(n) =~= deps);
    } else {
        let earlier = deps.drop_last();
        assert(earlier.take(n) =~= deps.take(n));
        lemma_chunk_origins_grow(earlier, n, x);
        let head = chunk_origins(earlier);
        let i = choose|i: int| 0 <= i < head.len() && head[i] == x;
        let all = chunk_origins(deps);
        assert(all[i] == x);
    }
}

/// An import of a chunk is listed among its origins unless an earlier import
/// has the same module id and the same request: imports of one request from
/// different modules are all listed. (Module ids here hold no `:`, which the
/// key `module:request` needs to tell them apart.)
pub proof fn law_chunk_origins_listed(deps: Seq<(String, String, String, String)>, k: int)
    requires
        0 <= k < deps.len(),
        forall|j: int| 0 <= j <= k ==> !(#[trigger] deps[j]).0@.contains(':'),
        forall|j: int| 0 <= j < k ==> !((#[trigger] deps[j]).0@ == deps[k].0@ && deps[j].3@ == deps[k].3@),
    ensures
        chunk_origins(deps).contains((deps[k].0@, deps[k].0@, deps[k].1@, deps[k].2@, deps[k].3@)),
{
    let d = deps[k];
    let item = (d.0@, d.0@, d.1@, d.2@, d.3@);
    let upto = deps.take(k + 1);
    let earlier = deps.take(k);
    assert(upto.drop_last() =~= earlier);
    assert(upto.last() == d);
    if exists|j: int| 0 <= j < earlier.len() && origin_key(#[trigger] earlier[j]) == origin_key(d) {
        let j = choose|j: int| 0 <= j < earlier.len() && origin_key(#[trigger] earlier[j]) == origin_key(d);
        assert(earlier[j] == deps[j]);
        lemma_origin_key_injective(deps[j], d);
        assert(false);
    }
    let listed = chunk_origins(upto);
    assert(listed == chunk_origins(earlier) + seq![item]);
    assert(listed[listed.len() - 1] == item);
    lemma_chunk_origins_grow(deps, k + 1, item);
}

/// The origins of a chunk list only its imports, and never two with the same
/// module id and the same request.
pub proof fn law_chunk_origins_distinct(deps: Seq<(String, String, String, String)>)
    ensures
        forall|i: int| 0 <= i < chunk_origins(deps).len() ==> exists|j: int| 0 <= j < deps.len()
            && #[trigger] chunk_origins(deps)[i] == (deps[j].0@, deps[j].0@, deps[j].1@, deps[j].2@, deps[j].3@),
        forall|i: int, k: int| 0 <= i < k < chunk_origins(deps).len() ==> !(#[trigger] chunk_origins(deps)[i].0
            == #[trigger] chunk_origins(deps)[k].0 && chunk_origins(deps)[i].4 == chunk_origins(deps)[k].4),
    decreases deps.len(),
{
    if deps.len() > 0 {
        let d = deps.last();
        let earlier = deps.drop_last();
        law_chunk_origins_distinct(earlier);
        let head = chunk_origins(earlier);
        let all = chunk_origins(deps);
        assert forall|i: int| 0 <= i < head.len() implies exists|j: int| 0 <= j < deps.len()
            && #[trigger] all[i] == (deps[j].0@, deps[j].0@, deps[j].1@, deps[j].2@, deps[j].3@) by {
            assert(all[i] == head[i]);
            let j = choose|j: int| 0 <= j < earlier.len()
                && #[trigger] head[i] == (earlier[j].0@, earlier[j].0@, earlier[j].1@, earlier[j].2@, earlier[j].3@);
            assert(earlier[j] == deps[j]);
        }
        if all.len() > head.len() {
            let n = head.len() as int;
            assert(all[n] == (d.0@, d.0@, d.1@, d.2@, d.3@));
            assert(deps[deps.len() - 1] == d);
            assert forall|i: int| 0 <= i < n implies !(#[trigger] all[i].0 == all[n].0 && all[i].4 == all[n].4) by {
                assert(all[i] == head[i]);
                let j = choose|j: int| 0 <= j < earlier.len()
                    && #[trigger] head[i] == (earlier[j].0@, earlier[j].0@, earlier[j].1@, earlier[j].2@, earlier[j].3@);
                if all[i].0 == all[n].0 && all[i].4 == all[n].4 {
                    assert(origin_key(earlier[j]) == origin_key(d));
                }
            }
        }
        assert forall|i: int, k: int| 0 <= i < k < all.len() implies !(#[trigger] all[i].0 == #[trigger] all[k].0
            && all[i].4 == all[k].4) by {
            if k < head.len() {
                assert(all[i] == head[i] && all[k] == head[k]);
            }
        }
    }
}

fn origins_of(deps: &Vec<(String, String, String, String)>) -> (r: Vec<StatsJsonChunkOriginItem>)
    ensures
        origins_view(r@) == chunk_origins(deps@),
{
    let mut r: Vec<StatsJsonChunkOriginItem> = Vec::new();
    let mut keys: Vec<String> = Vec::new();
    let mut i: usize = 0;
    while i < deps.len()
        invariant
            i <= deps@.len(),
            origins_view(r@) == chunk_origins(deps@.take(i as int)),
            keys@.len() == i,
            forall|j: int| 0 <= j < i ==> #[trigger] keys@[j]@ == origin_key(deps@[j]),
        decreases deps@.len() - i,
    {
        let ghost earlier = deps@.take(i as int);
        assert(deps@.take(i + 1).drop_last() =~= earlier);
        let d = &deps[i];
        let mut key = cat(d.0.as_str(), ":");
        key.append(d.3.as_str());
        proof { reveal_strlit(":"); }
        assert(key@ == origin_key(*d));
        let seen = crate::text::vec_has(&keys, key.as_str());
        assert(seen == exists|j: int| 0 <= j < earlier.len() && origin_key(#[trigger] earlier[j]) == origin_key(*d)) by {
            if seen {
                let j = choose|j: int| 0 <= j < keys@.len() && #[trigger] strings_view(keys@)[j] == key@;
                assert(keys@[j]@ == origin_key(earlier[j]));
            }
            if exists|j: int| 0 <= j < earlier.len() && origin_key(#[trigger] earlier[j]) == origin_key(*d) {
                let j = choose|j: int| 0 <= j < earlier.len() && origin_key(#[trigger] earlier[j]) == origin_key(*d);
                assert(strings_view(keys@)[j] == key@);
            }
        }
        let ghost before = r@;
        if !seen {
            let item = StatsJsonChunkOriginItem {
                module: owned(d.0.as_str()),
                module_identifier: owned(d.0.as_str()),
                module_name: owned(d.1.as_str()),
                loc: owned(d.2.as_str()),
                request: owned(d.3.as_str()),
            };
            r.push(item);
            assert(origins_view(r@)
                =~= origins_view(before).push(origin_view(item)));
        }
        assert(origins_view(r@) =~= chunk_origins(deps@.take(i + 1)));
        keys.push(key);
        i = i + 1;
    }
    assert(deps@.take(i as int) =~= deps@);
    r
}

} // verus!

verus! {

/// The chunk item of chunk `c`: kind `chunk`, its id, the hashed names of its
/// assets, whether it is an entry, its module items, the chunks loaded with
/// it and its origins.
pub open spec fn chunk_item_of(item: StatsJsonChunkItem, c: ChunkInput, assets: Seq<AssetsInfo>) -> bool {
    &&& json_type_view(item.chunk_type) == (2u8, "chunk"@)
    &&& item.id@ == c.id@
    &&& strings_view(item.files@) == chunk_files(assets, c.id@)
    &&& item.entry == (c.entry_name is Some)
    &&& module_items_view(item.modules@) == chunk_module_items(c.modules@, c.id@)
    &&& strings_view(item.siblings@) == strings_view(c.siblings@)
    &&& origins_view(item.origins@) == chunk_origins(c.origins@)
}

/// The module items of all chunks, chunk after chunk.
pub open spec fn all_module_items(chunks: Seq<ChunkInput>) -> Seq<((u8, Seq<char>), u64, Seq<char>, Seq<Seq<char>>)>
    decreases chunks.len(),
{
    if chunks.len() == 0 {
        seq![]
    } else {
        all_module_items(chunks.drop_last()) + chunk_module_items(chunks.last().modules@, chunks.last().id@)
    }
}

/// The entry points of the chunks: for each entry chunk, its name and the
/// chunks it depends on followed by its own; a later entry of the same name
/// replaces an earlier one.
pub open spec fn entry_points(chunks: Seq<ChunkInput>) -> Map<Seq<char>, (Seq<char>, Seq<Seq<char>>)>
    decreases chunks.len(),
{
    if chunks.len() == 0 {
        Map::empty()
    } else {
        let c = chunks.last();
        match c.entry_name {
            Some(n) => entry_points(chunks.drop_last()).insert(n@, (n@, strings_view(c.entry_dependencies@).push(c.id@))),
            None => entry_points(chunks.drop_last()),
        }
    }
}

/// An entry item as values.
pub open spec fn entry_view(e: StatsJsonEntryItem) -> (Seq<char>, Seq<Seq<char>>) {
    (e.name@, strings_view(e.chunks@))
}

/// The assets recorded for the files `new_assets` (size, name) of output
/// directory `output_path`.
pub open spec fn added_assets(new_assets: Seq<(u64, String)>, output_path: Seq<char>) -> Seq<(Seq<char>, u64, Seq<char>, Seq<char>, Seq<char>, Seq<char>)> {
    new_assets.map_values(|a: (u64, String)| ("asset"@, a.0, a.1@, a.1@, Seq::<char>::empty(), crate::paths::joined_path(output_path, a.1@)))
}

/// The chunk item of `c` among the `assets`.
pub fn chunk_item(c: &ChunkInput, assets: &Vec<AssetsInfo>) -> (r: StatsJsonChunkItem)
    ensures
        chunk_item_of(r, *c, assets@),
{
    StatsJsonChunkItem {
        chunk_type: StatsJsonType::Chunk(owned("chunk")),
        id: owned(c.id.as_str()),
        files: files_of_chunk(assets, c.id.as_str()),
        entry: c.entry_name.is_some(),
        modules: module_items(&c.modules, c.id.as_str()),
        siblings: copy_strings(&c.siblings),
        origins: origins_of(&c.origins),
    }
}

/// The stats file of a build: its hash and time, its root and output paths,
/// the assets recorded so far and the files `new_assets` (size, name) of the
/// output directory, which are recorded first, the chunks with their
/// modules, the entry points, the modules and the server-component records.
pub fn create_stats_info(
    hash: u64,
    built_at: i64,
    root_path: String,
    output_path: &str,
    stats_info: &mut StatsInfo,
    new_assets: &Vec<(u64, String)>,
    chunks: &Vec<ChunkInput>,
) -> (r: StatsJsonMap)
    requires
        old(stats_info).wf(),
    ensures
        final(stats_info).wf(),
        assets_view(final(stats_info).assets@) == assets_view(old(stats_info).assets@) + added_assets(new_assets@, output_path@),
        final(stats_info).rsc_client_components == old(stats_info).rsc_client_components,
        final(stats_info).rsc_css_modules == old(stats_info).rsc_css_modules,
        final(stats_info).modules == old(stats_info).modules,
        r.hash == hash,
        r.built_at == built_at,
        r.root_path@ == root_path@,
        r.output_path@ == output_path@,
        assets_items_view(r.assets@) == json_assets(final(stats_info).assets@),
        r.chunks@.len() == chunks@.len(),
        forall|i: int| 0 <= i < chunks@.len() ==> chunk_item_of(#[trigger] r.chunks@[i], chunks@[i], final(stats_info).assets@),
        module_items_view(r.chunk_modules@) == all_module_items(chunks@),
        r.entrypoints.wf(),
        r.entrypoints.map().dom() == entry_points(chunks@).dom(),
        forall|k: Seq<char>| #[trigger] r.entrypoints.map().contains_key(k)
            ==> entry_view(r.entrypoints.map()[k]) == entry_points(chunks@)[k],
        r.modules.wf(),
        r.modules.map().dom() == old(stats_info).modules.map().dom(),
        forall|k: Seq<char>| #[trigger] r.modules.map().contains_key(k)
            ==> module_info_view(r.modules.map()[k]) == module_info_view(old(stats_info).modules.map()[k]),
        client_paths(r.rsc_client_components@) == client_paths(old(stats_info).rsc_client_components@),
        css_paths(r.rsc_css_modules@) == css_paths(old(stats_info).rsc_css_modules@),
        r.start_time == 0,
        r.end_time == 0,
{
    let mut i: usize = 0;
    while i < new_assets.len()
        invariant
            stats_info.wf(),
            i <= new_assets@.len(),
            assets_view(stats_info.assets@) == assets_view(old(stats_info).assets@)
                + added_assets(new_assets@.take(i as int), output_path@),
            stats_info.rsc_client_components == old(stats_info).rsc_client_components,
            stats_info.rsc_css_modules == old(stats_info).rsc_css_modules,
            stats_info.modules == old(stats_info).modules,
        decreases new_assets@.len() - i,
    {
        let (size, name) = (new_assets[i].0, &new_assets[i].1);
        let path = crate::paths::join(output_path, name.as_str());
        stats_info.add_assets(size, owned(name.as_str()), String::new(), path, owned(name.as_str()));
        assert(new_assets@.take(i + 1) =~= new_assets@.take(i as int).push(new_assets@[i as int]));
        assert(added_assets(new_assets@.take(i + 1), output_path@)
            =~= added_assets(new_assets@.take(i as int), output_path@).push(
                ("asset"@, size, name@, name@, Seq::<char>::empty(), crate::paths::joined_path(output_path@, name@))));
        i = i + 1;
    }
    assert(new_assets@.take(i as int) =~= new_assets@);
    let assets = stats_info.get_assets();
    let json_assets_items = stats_assets(&assets);
    proof {
        assert(json_assets(assets@) =~= json_assets(stats_info.assets@)) by {
            assert forall|j: int| 0 <= j < assets@.len() implies asset_view(assets@[j]) == asset_view(stats_info.assets@[j]) by {
                assert(assets_view(assets@)[j] == assets_view(stats_info.assets@)[j]);
            }
        }
    }
    let mut chunk_items: Vec<StatsJsonChunkItem> = Vec::new();
    let mut chunk_modules: Vec<StatsJsonChunkModuleItem> = Vec::new();
    let mut entrypoints: VecMap<String, StatsJsonEntryItem> = VecMap::new();
    let mut c: usize = 0;
    while c < chunks.len()
        invariant
            c <= chunks@.len(),
            assets_view(assets@) == assets_view(stats_info.assets@),
            chunk_items@.len() == c,
            forall|j: int| 0 <= j < c ==> chunk_item_of(#[trigger] chunk_items@[j], chunks@[j], assets@),
            module_items_view(chunk_modules@) == all_module_items(chunks@.take(c as int)),
            entrypoints.wf(),
            entrypoints.map().dom() == entry_points(chunks@.take(c as int)).dom(),
            forall|k: Seq<char>| #[trigger] entrypoints.map().contains_key(k)
                ==> entry_view(entrypoints.map()[k]) == entry_points(chunks@.take(c as int))[k],
        decreases chunks@.len() - c,
    {
        let chunk = &chunks[c];
        assert(chunks@.take(c + 1).drop_last() =~= chunks@.take(c as int));
        let item = chunk_item(chunk, &assets);
        let mods = module_items(&chunk.modules, chunk.id.as_str());
        let ghost before_mods = chunk_modules@;
        let mut mods = mods;
        chunk_modules.append(&mut mods);
        assert(module_items_view(chunk_modules@) =~= module_items_view(before_mods)
            + chunk_module_items(chunk.modules@, chunk.id@));
        match &chunk.entry_name {
            Some(n) => {
                let mut deps = copy_strings(&chunk.entry_dependencies);
                let ghost dv = strings_view(deps@);
                deps.push(owned(chunk.id.as_str()));
                assert(strings_view(deps@) =~= dv.push(chunk.id@));
                let e = StatsJsonEntryItem { name: owned(n.as_str()), chunks: deps };
                let ghost prev = entrypoints.map();
                entrypoints.insert(owned(n.as_str()), e);
                proof {
                    assert(entrypoints.map().dom() =~= entry_points(chunks@.take(c + 1)).dom());
                    assert forall|k: Seq<char>| #[trigger] entrypoints.map().contains_key(k)
                        implies entry_view(entrypoints.map()[k]) == entry_points(chunks@.take(c + 1))[k] by {
                        if k != n@ {
                            assert(prev.contains_key(k));
                        }
                    }
                }
            },
            None => {},
        }
        chunk_items.push(item);
        proof {
            assert forall|j: int| 0 <= j < c + 1 implies chunk_item_of(#[trigger] chunk_items@[j], chunks@[j], assets@) by {
                if j < c {
                    assert(chunk_item_of(chunk_items@[j], chunks@[j], assets@));
                }
            }
        }
        c = c + 1;
    }
    assert(chunks@.take(c as int) =~= chunks@);
    proof {
        assert forall|s: Seq<AssetsInfo>, t: Seq<AssetsInfo>, id: Seq<char>| assets_view(s) == assets_view(t)
            implies #[trigger] chunk_files(s, id) == #[trigger] chunk_files(t, id) by {
            lemma_chunk_files_by_view(s, t, id);
        }
        assert forall|j: int| 0 <= j < chunks@.len() implies chunk_item_of(#[trigger] chunk_items@[j], chunks@[j], stats_info.assets@) by {
            assert(chunk_item_of(chunk_items@[j], chunks@[j], assets@));
            assert(chunk_files(assets@, chunks@[j].id@) == chunk_files(stats_info.assets@, chunks@[j].id@));
        }
    }
    StatsJsonMap {
        hash,
        built_at,
        root_path,
        output_path: owned(output_path),
        assets: json_assets_items,
        chunk_modules,
        modules: stats_info.get_modules(),
        chunks: chunk_items,
        entrypoints,
        rsc_client_components: stats_info.get_rsc_client_components(),
        rsc_css_modules: stats_info.get_rsc_css_modules(),
        start_time: 0,
        end_time: 0,
    }
}

proof fn lemma_chunk_files_by_view(s: Seq<AssetsInfo>, t: Seq<AssetsInfo>, id: Seq<char>)
    requires
        assets_view(s) == assets_view(t),
    ensures
        chunk_files(s, id) == chunk_files(t, id),
    decreases s.len(),
{
    assert(s.len() == assets_view(s).len());
    assert(t.len() == assets_view(t).len());
    if s.len() > 0 {
        assert(assets_view(s.drop_last()) =~= assets_view(s).drop_last());
        assert(assets_view(t.drop_last()) =~= assets_view(t).drop_last());
        lemma_chunk_files_by_view(s.drop_last(), t.drop_last(), id);
        assert(asset_view(s.last()) == assets_view(s)[s.len() - 1]);
        assert(asset_view(t.last()) == assets_view(t)[t.len() - 1]);
    }
}

} // verus!
