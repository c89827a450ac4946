//! The manifest of a federation build: what each exposed and shared module
//! and each remote needs, and the assets of chunks.
use vstd::prelude::*;
use crate::text::{owned, cat, ends_with, has_suffix, str_eq, remove_dot_slash, without_dot_slash, strings_view, vec_has};
use crate::federation::util::{parse_remote, remote_parts};
use crate::text::{char_segments, split_by_char};
use crate::vec_map::VecMap;

verus! {

/// The JS or CSS files of some chunks: those loaded at once, and those
/// loaded later.
pub struct ManifestAssetsItem {
    pub sync: Vec<String>,
    pub asynchronous: Vec<String>,
}

/// The JS and CSS files of some chunks.
pub struct ManifestAssets {
    pub js: ManifestAssetsItem,
    pub css: ManifestAssetsItem,
}

/// An exposed module.
pub struct ManifestExpose {
    pub id: String,
    pub name: String,
    pub assets: ManifestAssets,
    pub path: String,
}

/// A shared module.
pub struct ManifestShared {
    pub id: String,
    pub name: String,
    pub assets: ManifestAssets,
    pub version: String,
    pub require_version: Option<String>,
    pub singleton: bool,
}

/// A remote used by the build.
pub struct ManifestRemote {
    pub entry: String,
    pub alias: String,
    pub module_name: String,
    pub federation_container_name: String,
}

/// Where the types of the build are.
pub struct ManifestMetaTypes {
    pub path: String,
    pub name: String,
    pub zip: String,
    pub api: String,
}

/// The name and version of the build.
pub struct ManifestMetaBuildInfo {
    pub build_version: String,
    pub build_name: String,
}

/// The entry of the container.
pub struct ManifestMetaRemoteEntry {
    pub name: String,
    pub path: String,
    pub entry_type: String,
}

/// What the manifest says of the build itself.
pub struct ManifestMetaData {
    pub remote_entry: Option<ManifestMetaRemoteEntry>,
    pub global_name: String,
    pub public_path: String,
    pub entry_type: String,
    pub build_info: ManifestMetaBuildInfo,
    pub name: String,
    pub types: ManifestMetaTypes,
    pub plugin_version: String,
}

/// The manifest of a federation build.
pub struct Manifest {
    pub id: String,
    pub name: String,
    pub meta_data: ManifestMetaData,
    pub shared: Vec<ManifestShared>,
    pub remotes: Vec<ManifestRemote>,
    pub exposes: Vec<ManifestExpose>,
}

/// A chunk of the build's stats: its id and its files.
pub struct ChunkFiles {
    pub id: String,
    pub files: Vec<String>,
}

/// A chunk as text: its id and its files.
pub open spec fn chunk_view(c: ChunkFiles) -> (Seq<char>, Seq<Seq<char>>) {
    (c.id@, c.files@.map_values(|f: String| f@))
}

pub open spec fn chunks_view(cs: Seq<ChunkFiles>) -> Seq<(Seq<char>, Seq<Seq<char>>)> {
    cs.map_values(|c: ChunkFiles| chunk_view(c))
}

/// The files of `files` that end with `ext`, in order.
pub open spec fn files_ending(files: Seq<Seq<char>>, ext: Seq<char>) -> Seq<Seq<char>>
    decreases files.len(),
{
    if files.len() == 0 {
        seq![]
    } else {
        files_ending(files.drop_last(), ext) + if has_suffix(files.last(), ext) {
            seq![files.last()]
        } else {
            seq![]
        }
    }
}

/// The position of the first chunk with id `id`.
pub open spec fn find_chunk(chunks: Seq<(Seq<char>, Seq<Seq<char>>)>, id: Seq<char>) -> Option<int>
    decreases chunks.len(),
{
    if chunks.len() == 0 {
        None
    } else {
        match find_chunk(chunks.drop_last(), id) {
            Some(i) => Some(i),
            None => if chunks.last().0 == id { Some(chunks.len() - 1) } else { None },
        }
    }
}

/// The files ending with `ext` of the chunks `ids`, chunk after chunk; an id
/// with no chunk in the stats adds nothing.
pub open spec fn assets_ending(ids: Seq<Seq<char>>, chunks: Seq<(Seq<char>, Seq<Seq<char>>)>, ext: Seq<char>) -> Seq<Seq<char>>
    decreases ids.len(),
{
    if ids.len() == 0 {
        seq![]
    } else {
        assets_ending(ids.drop_last(), chunks, ext) + match find_chunk(chunks, ids.last()) {
            Some(i) => files_ending(chunks[i].1, ext),
            None => seq![],
        }
    }
}

fn find_chunk_index(chunks: &Vec<ChunkFiles>, id: &str) -> (r: Option<usize>)
    ensures
        match r {
            Some(i) => i < chunks@.len() && find_chunk(chunks_view(chunks@), id@) == Some(i as int),
            None => find_chunk(chunks_view(chunks@), id@) is None,
        },
{
    let ghost cv = chunks_view(chunks@);
    let mut i: usize = 0;
    while i < chunks.len()
        invariant
            i <= chunks@.len(),
            cv == chunks_view(chunks@),
            find_chunk(cv.take(i as int), id@) is None,
        decreases chunks@.len() - i,
    {
        assert(cv.take(i + 1).drop_last() =~= cv.take(i as int));
        if str_eq(chunks[i].id.as_str(), id) {
            proof { lemma_find_chunk_prefix(cv, i as int + 1, id@); }
            return Some(i);
        }
        i = i + 1;
    }
    assert(cv.take(i as int) =~= cv);
    None
}

proof fn lemma_find_chunk_prefix(cs: Seq<(Seq<char>, Seq<Seq<char>>)>, k: int, id: Seq<char>)
    requires
        0 <= k <= cs.len(),
        find_chunk(cs.take(k), id) is Some,
    ensures
        find_chunk(cs, id) == find_chunk(cs.take(k), id),
    decreases cs.len() - k,
{
    if k < cs.len() {
        assert(cs.take(k + 1).drop_last() =~= cs.take(k));
        lemma_find_chunk_prefix(cs, k + 1, id);
    } else {
        assert(cs.take(k) =~= cs);
    }
}

/// Appends the files of `files` that end with `ext` to `out`.
fn push_files_ending(out: &mut Vec<String>, files: &Vec<String>, ext: &str)
    ensures
        strings_view(final(out)@) == strings_view(old(out)@) + files_ending(strings_view(files@), ext@),
{
    let ghost fv = strings_view(files@);
    let ghost start = strings_view(out@);
    let mut i: usize = 0;
    while i < files.len()
        invariant
            i <= files@.len(),
            fv == strings_view(files@),
            strings_view(out@) == start + files_ending(fv.take(i as int), ext@),
        decreases files@.len() - i,
    {
        assert(fv.take(i + 1).drop_last() =~= fv.take(i as int));
        let ghost before = out@;
        if ends_with(files[i].as_str(), ext) {
            out.push(owned(files[i].as_str()));
            assert(strings_view(out@) =~= strings_view(before).push(fv[i as int]));
        }
        assert(strings_view(out@) =~= start + files_ending(fv.take(i + 1), ext@));
        i = i + 1;
    }
    assert(fv.take(i as int) =~= fv);
}

/// The JS files and the CSS files of the chunks `ids`, in the order of the
/// chunks and of their files.
pub fn extract_assets(ids: &Vec<String>, chunks: &Vec<ChunkFiles>) -> (r: (Vec<String>, Vec<String>))
    ensures
        strings_view(r.0@) == assets_ending(strings_view(ids@), chunks_view(chunks@), ".js"@),
        strings_view(r.1@) == assets_ending(strings_view(ids@), chunks_view(chunks@), ".css"@),
{
    let ghost iv = strings_view(ids@);
    let ghost cv = chunks_view(chunks@);
    let mut js: Vec<String> = Vec::new();
    let mut css: Vec<String> = Vec::new();
    let mut i: usize = 0;
    while i < ids.len()
        invariant
            i <= ids@.len(),
            iv == strings_view(ids@),
            cv == chunks_view(chunks@),
            strings_view(js@) == assets_ending(iv.take(i as int), cv, ".js"@),
            strings_view(css@) == assets_ending(iv.take(i as int), cv, ".css"@),
        decreases ids@.len() - i,
    {
        assert(iv.take(i + 1).drop_last() =~= iv.take(i as int));
        match find_chunk_index(chunks, ids[i].as_str()) {
            Some(k) => {
                push_files_ending(&mut js, &chunks[k].files, ".js");
                push_files_ending(&mut css, &chunks[k].files, ".css");
            },
            None => {},
        }
        assert(strings_view(js@) =~= assets_ending(iv.take(i + 1), cv, ".js"@));
        assert(strings_view(css@) =~= assets_ending(iv.take(i + 1), cv, ".css"@));
        i = i + 1;
    }
    assert(iv.take(i as int) =~= iv);
    (js, css)
}

/// The files of `files` that are not in `exclude`, in order.
pub open spec fn files_not_in(files: Seq<Seq<char>>, exclude: Seq<Seq<char>>) -> Seq<Seq<char>>
    decreases files.len(),
{
    if files.len() == 0 {
        seq![]
    } else {
        files_not_in(files.drop_last(), exclude) + if exclude.contains(files.last()) {
            seq![]
        } else {
            seq![files.last()]
        }
    }
}

fn retain_not_in(files: Vec<String>, exclude: &Vec<String>) -> (r: Vec<String>)
    ensures
        strings_view(r@) == files_not_in(strings_view(files@), strings_view(exclude@)),
{
    let ghost fv = strings_view(files@);
    let ghost ev = strings_view(exclude@);
    let mut r: Vec<String> = Vec::new();
    let mut i: usize = 0;
    while i < files.len()
        invariant
            i <= files@.len(),
            fv == strings_view(files@),
            ev == strings_view(exclude@),
            strings_view(r@) == files_not_in(fv.take(i as int), ev),
        decreases files@.len() - i,
    {
        assert(fv.take(i + 1).drop_last() =~= fv.take(i as int));
        let ghost before = r@;
        if !vec_has(exclude, files[i].as_str()) {
            r.push(owned(files[i].as_str()));
            assert(strings_view(r@) =~= strings_view(before).push(fv[i as int]));
        }
        assert(strings_view(r@) =~= files_not_in(fv.take(i + 1), ev));
        i = i + 1;
    }
    assert(fv.take(i as int) =~= fv);
    r
}


proof fn lemma_files_ending_suffix(files: Seq<Seq<char>>, ext: Seq<char>)
    ensures
        forall|i: int| 0 <= i < files_ending(files, ext).len() ==> has_suffix(#[trigger] files_ending(files, ext)[i], ext),
    decreases files.len(),
{
    if files.len() > 0 {
        lemma_files_ending_suffix(files.drop_last(), ext);
        let a = files_ending(files.drop_last(), ext);
        let r = files_ending(files, ext);
        assert forall|i: int| 0 <= i < r.len() implies has_suffix(#[trigger] r[i], ext) by {
            if i < a.len() {
                assert(r[i] == a[i]);
            }
        }
    }
}

proof fn lemma_assets_ending_suffix(ids: Seq<Seq<char>>, chunks: Seq<(Seq<char>, Seq<Seq<char>>)>, ext: Seq<char>)
    ensures
        forall|i: int| 0 <= i < assets_ending(ids, chunks, ext).len() ==> has_suffix(#[trigger] assets_ending(ids, chunks, ext)[i], ext),
    decreases ids.len(),
{
    if ids.len() > 0 {
        lemma_assets_ending_suffix(ids.drop_last(), chunks, ext);
        let a = assets_ending(ids.drop_last(), chunks, ext);
        let r = assets_ending(ids, chunks, ext);
        match find_chunk(chunks, ids.last()) {
            Some(c) => {
                lemma_files_ending_suffix(chunks[c].1, ext);
                let b = files_ending(chunks[c].1, ext);
                assert forall|i: int| 0 <= i < r.len() implies has_suffix(#[trigger] r[i], ext) by {
                    if i < a.len() {
                        assert(r[i] == a[i]);
                    } else {
                        assert(r[i] == b[i - a.len()]);
                    }
                }
            },
            None => {
                assert(r =~= a);
            },
        }
    }
}

proof fn lemma_files_not_in(files: Seq<Seq<char>>, exclude: Seq<Seq<char>>)
    ensures
        forall|i: int| 0 <= i < files_not_in(files, exclude).len() ==> !exclude.contains(#[trigger] files_not_in(files, exclude)[i])
            && files.contains(files_not_in(files, exclude)[i]),
    decreases files.len(),
{
    if files.len() > 0 {
        lemma_files_not_in(files.drop_last(), exclude);
        let a = files_not_in(files.drop_last(), exclude);
        let r = files_not_in(files, exclude);
        assert forall|i: int| 0 <= i < r.len() implies !exclude.contains(#[trigger] r[i]) && files.contains(r[i]) by {
            if i < a.len() {
                assert(r[i] == a[i]);
                let k = choose|k: int| 0 <= k < files.drop_last().len() && files.drop_last()[k] == a[i];
                assert(files[k] == a[i]);
            } else {
                assert(r[i] == files.last());
                assert(files[files.len() - 1] == files.last());
            }
        }
    }
}

/// Assets as the manifest lists them: every JS file ends with `.js`, every
/// CSS file with `.css`, and no JS file loaded later is among those loaded
/// at once.
pub open spec fn assets_well_kept(r: ManifestAssets) -> bool {
    &&& forall|i: int| 0 <= i < r.js.sync@.len() ==> has_suffix(#[trigger] r.js.sync@[i]@, ".js"@)
    &&& forall|i: int| 0 <= i < r.js.asynchronous@.len() ==> has_suffix(#[trigger] r.js.asynchronous@[i]@, ".js"@)
    &&& forall|i: int| 0 <= i < r.css.sync@.len() ==> has_suffix(#[trigger] r.css.sync@[i]@, ".css"@)
    &&& forall|i: int| 0 <= i < r.css.asynchronous@.len() ==> has_suffix(#[trigger] r.css.asynchronous@[i]@, ".css"@)
    &&& forall|i: int| 0 <= i < r.js.asynchronous@.len() ==> !strings_view(r.js.sync@).contains(#[trigger] r.js.asynchronous@[i]@)
}

/// The assets of chunks loaded at once (`sync_ids`) and of chunks loaded
/// later (`async_ids`): files of the later chunks that are already among the
/// JS files loaded at once are left out, for CSS as for JS.
pub fn chunk_assets(sync_ids: &Vec<String>, async_ids: &Vec<String>, chunks: &Vec<ChunkFiles>) -> (r: ManifestAssets)
    ensures
        strings_view(r.js.sync@) == assets_ending(strings_view(sync_ids@), chunks_view(chunks@), ".js"@),
        strings_view(r.css.sync@) == assets_ending(strings_view(sync_ids@), chunks_view(chunks@), ".css"@),
        strings_view(r.js.asynchronous@) == files_not_in(
            assets_ending(strings_view(async_ids@), chunks_view(chunks@), ".js"@),
            strings_view(r.js.sync@),
        ),
        strings_view(r.css.asynchronous@) == files_not_in(
            assets_ending(strings_view(async_ids@), chunks_view(chunks@), ".css"@),
            strings_view(r.js.sync@),
        ),
        assets_well_kept(r),
{
    let (sync_js, sync_css) = extract_assets(sync_ids, chunks);
    let (async_js, async_css) = extract_assets(async_ids, chunks);
    let async_js = retain_not_in(async_js, &sync_js);
    let async_css = retain_not_in(async_css, &sync_js);
    let r = ManifestAssets {
        js: ManifestAssetsItem { sync: sync_js, asynchronous: async_js },
        css: ManifestAssetsItem { sync: sync_css, asynchronous: async_css },
    };
    proof {
        let cv = chunks_view(chunks@);
        let sv = strings_view(sync_ids@);
        let av = strings_view(async_ids@);
        lemma_assets_ending_suffix(sv, cv, ".js"@);
        lemma_assets_ending_suffix(sv, cv, ".css"@);
        lemma_assets_ending_suffix(av, cv, ".js"@);
        lemma_assets_ending_suffix(av, cv, ".css"@);
        let aj = assets_ending(av, cv, ".js"@);
        let ac = assets_ending(av, cv, ".css"@);
        lemma_files_not_in(aj, strings_view(r.js.sync@));
        lemma_files_not_in(ac, strings_view(r.js.sync@));
        assert forall|i: int| 0 <= i < r.js.sync@.len() implies has_suffix(#[trigger] r.js.sync@[i]@, ".js"@) by {
            assert(r.js.sync@[i]@ == strings_view(r.js.sync@)[i]);
        }
        assert forall|i: int| 0 <= i < r.css.sync@.len() implies has_suffix(#[trigger] r.css.sync@[i]@, ".css"@) by {
            assert(r.css.sync@[i]@ == strings_view(r.css.sync@)[i]);
        }
        assert forall|i: int| 0 <= i < r.js.asynchronous@.len() implies has_suffix(#[trigger] r.js.asynchronous@[i]@, ".js"@)
            && !strings_view(r.js.sync@).contains(r.js.asynchronous@[i]@) by {
            let e = strings_view(r.js.asynchronous@)[i];
            assert(r.js.asynchronous@[i]@ == e);
            assert(aj.contains(e));
            let k = choose|k: int| 0 <= k < aj.len() && aj[k] == e;
            assert(has_suffix(aj[k], ".js"@));
        }
        assert forall|i: int| 0 <= i < r.css.asynchronous@.len() implies has_suffix(#[trigger] r.css.asynchronous@[i]@, ".css"@) by {
            let e = strings_view(r.css.asynchronous@)[i];
            assert(r.css.asynchronous@[i]@ == e);
            assert(ac.contains(e));
            let k = choose|k: int| 0 <= k < ac.len() && ac[k] == e;
            assert(has_suffix(ac[k], ".css"@));
        }
    }
    r
}

/// The name under which a module is exposed: its path without `./`.
pub fn expose_name(path: &str) -> (r: String)
    ensures
        r@ == without_dot_slash(path@),
{
    remove_dot_slash(path)
}

/// The id of a module of container `container`: `container:name`.
pub fn federation_id(container: &str, name: &str) -> (r: String)
    ensures
        r@ == container@ + ":"@ + name@,
{
    let mut r = owned(container);
    r.append(":");
    r.append(name);
    r
}

/// The entry of the manifest for a module taken from a remote container,
/// whose id reads `<prefix>/<prefix>/<prefix>/<alias>/<module>...`: the
/// alias names the remote in the configuration `remotes` (alias to
/// `name@entry`), whose entry is given.
pub fn manifest_remote(module_id: &str, remotes: &VecMap<String, String>) -> (r: ManifestRemote)
    requires
        remotes.wf(),
        char_segments(module_id@, '/').len() >= 5,
        remotes.map().contains_key(char_segments(module_id@, '/')[3]),
        remote_parts(remotes.map()[char_segments(module_id@, '/')[3]]@) is Some,
    ensures
        r.entry@ == remote_parts(remotes.map()[char_segments(module_id@, '/')[3]]@)->Some_0.1,
        r.alias@ == char_segments(module_id@, '/')[3],
        r.module_name@ == char_segments(module_id@, '/')[4],
        r.federation_container_name@ == char_segments(module_id@, '/')[3],
{
    let data = split_by_char(module_id, '/');
    assert(data@[3]@ == strings_view(data@)[3]);
    assert(data@[4]@ == strings_view(data@)[4]);
    let alias = owned(data[3].as_str());
    let entry = match remotes.get(&data[3]) {
        Some(remote) => match parse_remote(remote.as_str()) {
            Ok((_, entry)) => entry,
            Err(_) => String::new(),
        },
        None => String::new(),
    };
    ManifestRemote {
        entry,
        alias,
        module_name: owned(data[4].as_str()),
        federation_container_name: owned(data[3].as_str()),
    }
}

/// The entry of the manifest for the module exposed at `path` by container
/// `container`, with its assets.
pub fn manifest_expose(container: &str, path: &str, assets: ManifestAssets) -> (r: ManifestExpose)
    ensures
        r.name@ == without_dot_slash(path@),
        r.id@ == container@ + ":"@ + without_dot_slash(path@),
        r.path@ == path@,
        r.assets == assets,
{
    let name = expose_name(path);
    let id = federation_id(container, name.as_str());
    ManifestExpose { id, name, assets, path: owned(path) }
}

/// The build's name and version as the package gives them, `default` and
/// the empty version when it gives none.
pub fn build_info(app_name: Option<String>, app_version: Option<String>) -> (r: ManifestMetaBuildInfo)
    ensures
        r.build_name@ == match app_name { Some(n) => n@, None => "default"@ },
        r.build_version@ == match app_version { Some(v) => v@, None => Seq::<char>::empty() },
{
    ManifestMetaBuildInfo {
        build_name: match app_name {
            Some(n) => n,
            None => owned("default"),
        },
        build_version: match app_version {
            Some(v) => v,
            None => String::new(),
        },
    }
}

/// The chunks listed for `id` in `m`, none when it has no entry.
pub open spec fn chunks_for(m: Map<Seq<char>, Vec<String>>, id: Seq<char>) -> Seq<Seq<char>> {
    if m.contains_key(id) { strings_view(m[id]@) } else { seq![] }
}

/// The sync dependencies of the chunks `ids`, those of each later chunk
/// placed before those of the earlier ones.
pub open spec fn sync_dependency_chunks(ids: Seq<Seq<char>>, deps: Map<Seq<char>, Vec<String>>) -> Seq<Seq<char>>
    decreases ids.len(),
{
    if ids.len() == 0 {
        seq![]
    } else {
        chunks_for(deps, ids.last()) + sync_dependency_chunks(ids.drop_last(), deps)
    }
}

/// The chunks listed for each of `ids` in turn.
pub open spec fn listed_chunks(ids: Seq<Seq<char>>, m: Map<Seq<char>, Vec<String>>) -> Seq<Seq<char>>
    decreases ids.len(),
{
    if ids.len() == 0 {
        seq![]
    } else {
        listed_chunks(ids.drop_last(), m) + chunks_for(m, ids.last())
    }
}

/// The chunks loaded at once for `sync_chunks`: their sync dependencies,
/// then the chunks themselves.
pub open spec fn all_sync_chunks(sync_chunks: Seq<Seq<char>>, deps: Map<Seq<char>, Vec<String>>) -> Seq<Seq<char>> {
    sync_dependency_chunks(sync_chunks, deps) + sync_chunks
}

fn append_listed(out: &mut Vec<String>, m: &VecMap<String, Vec<String>>, id: &String)
    requires
        m.wf(),
    ensures
        strings_view(final(out)@) == strings_view(old(out)@) + chunks_for(m.map(), id@),
{
    match m.get(id) {
        Some(v) => {
            let mut k: usize = 0;
            let ghost start = strings_view(out@);
            while k < v.len()
                invariant
                    k <= v@.len(),
                    strings_view(out@) == start + strings_view(v@).take(k as int),
                decreases v@.len() - k,
            {
                let ghost b = strings_view(out@);
                out.push(owned(v[k].as_str()));
                assert(strings_view(out@) =~= b.push(v@[k as int]@));
                assert(strings_view(v@).take(k + 1) =~= strings_view(v@).take(k as int).push(v@[k as int]@));
                k = k + 1;
            }
            assert(strings_view(v@).take(k as int) =~= strings_view(v@));
        },
        None => {
            assert(strings_view(out@) + Seq::<Seq<char>>::empty() =~= strings_view(out@));
        },
    }
}

/// The assets of the chunks `sync_chunks` and of what they need: the chunks
/// loaded at once are their sync dependencies (`sync_deps`, by chunk) and
/// then themselves; the chunks loaded later are the installable
/// descendants (`descendants`, by chunk) of each of those.
pub fn extract_chunk_assets(
    sync_chunks: &Vec<String>,
    sync_deps: &VecMap<String, Vec<String>>,
    descendants: &VecMap<String, Vec<String>>,
    chunks: &Vec<ChunkFiles>,
) -> (r: ManifestAssets)
    requires
        sync_deps.wf(),
        descendants.wf(),
    ensures
        ({
            let sync = all_sync_chunks(strings_view(sync_chunks@), sync_deps.map());
            let later = listed_chunks(sync, descendants.map());
            &&& strings_view(r.js.sync@) == assets_ending(sync, chunks_view(chunks@), ".js"@)
            &&& strings_view(r.css.sync@) == assets_ending(sync, chunks_view(chunks@), ".css"@)
            &&& strings_view(r.js.asynchronous@) == files_not_in(assets_ending(later, chunks_view(chunks@), ".js"@),
                strings_view(r.js.sync@))
            &&& strings_view(r.css.asynchronous@) == files_not_in(assets_ending(later, chunks_view(chunks@), ".css"@),
                strings_view(r.js.sync@))
        }),
        assets_well_kept(r),
{
    let ghost sv = strings_view(sync_chunks@);
    let mut deps: Vec<String> = Vec::new();
    let mut i: usize = 0;
    while i < sync_chunks.len()
        invariant
            i <= sync_chunks@.len(),
            sv == strings_view(sync_chunks@),
            sync_deps.wf(),
            strings_view(deps@) == sync_dependency_chunks(sv.take(i as int), sync_deps.map()),
        decreases sync_chunks@.len() - i,
    {
        let mut front: Vec<String> = Vec::new();
        append_listed(&mut front, sync_deps, &sync_chunks[i]);
        let ghost fv = strings_view(front@);
        let mut k: usize = 0;
        while k < deps.len()
            invariant
                k <= deps@.len(),
                strings_view(front@) == fv + strings_view(deps@).take(k as int),
            decreases deps@.len() - k,
        {
            let ghost b = strings_view(front@);
            front.push(owned(deps[k].as_str()));
            assert(strings_view(front@) =~= b.push(deps@[k as int]@));
            assert(strings_view(deps@).take(k + 1) =~= strings_view(deps@).take(k as int).push(deps@[k as int]@));
            k = k + 1;
        }
        assert(strings_view(deps@).take(k as int) =~= strings_view(deps@));
        assert(sv.take(i + 1).drop_last() =~= sv.take(i as int));
        assert(sv.take(i + 1).last() == sync_chunks@[i as int]@);
        deps = front;
        i = i + 1;
    }
    assert(sv.take(i as int) =~= sv);
    let mut all_sync = deps;
    let mut j: usize = 0;
    let ghost d0 = strings_view(all_sync@);
    while j < sync_chunks.len()
        invariant
            j <= sync_chunks@.len(),
            sv == strings_view(sync_chunks@),
            strings_view(all_sync@) == d0 + sv.take(j as int),
        decreases sync_chunks@.len() - j,
    {
        let ghost b = strings_view(all_sync@);
        all_sync.push(owned(sync_chunks[j].as_str()));
        assert(strings_view(all_sync@) =~= b.push(sv[j as int]));
        assert(sv.take(j + 1) =~= sv.take(j as int).push(sv[j as int]));
        j = j + 1;
    }
    assert(sv.take(j as int) =~= sv);
    let ghost av = strings_view(all_sync@);
    let mut later: Vec<String> = Vec::new();
    let mut k: usize = 0;
    while k < all_sync.len()
        invariant
            k <= all_sync@.len(),
            av == strings_view(all_sync@),
            descendants.wf(),
            strings_view(later@) == listed_chunks(av.take(k as int), descendants.map()),
        decreases all_sync@.len() - k,
    {
        append_listed(&mut later, descendants, &all_sync[k]);
        assert(av.take(k + 1).drop_last() =~= av.take(k as int));
        assert(av.take(k + 1).last() == all_sync@[k as int]@);
        k = k + 1;
    }
    assert(av.take(k as int) =~= av);
    chunk_assets(&all_sync, &later, chunks)
}

} // verus!
