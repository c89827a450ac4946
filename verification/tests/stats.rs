use mako::rsc::{RscClientInfo, Rsc};
use mako::stats::{
    create_stats_info, dist_prefix, pad_string, stats_rows, AssetKind, AssetsInfo, ChunkInput, ModuleInfo, StatsInfo, StatsJsonType,
};

fn asset(name: &str, hashname: &str, size: u64, chunk_id: &str) -> AssetsInfo {
    AssetsInfo {
        assets_type: "asset".to_string(),
        size,
        name: name.to_string(),
        hashname: hashname.to_string(),
        chunk_id: chunk_id.to_string(),
        path: format!("/out/{}", hashname),
    }
}

#[test]
fn pad_string_pads_in_front_or_behind() {
    assert_eq!(pad_string("ab", 5, true), "   ab");
    assert_eq!(pad_string("ab", 5, false), "ab   ");
    assert_eq!(pad_string("abc", 3, true), "abc");
}

#[test]
fn asset_table_rows() {
    let assets = vec![
        asset("main.js", "main.abc.js", 2000, "main"),
        asset("main.js.map", "main.abc.js.map", 5000, "main"),
        asset("index.css", "index.css", 300, "main"),
        asset("a.map", "a.map", 12_000_000, "main"),
    ];
    let texts: Vec<String> = ["2.00 kB", "5.00 kB", "0.30 kB", "12.00 MB"].iter().map(|s| s.to_string()).collect();
    let rows = stats_rows("dist/", &assets, &texts);
    let got: Vec<(String, AssetKind, String, Option<String>)> = rows
        .into_iter()
        .map(|r| (r.file_name, r.kind, r.size, r.map_size))
        .collect();
    assert_eq!(
        got,
        vec![
            ("dist/a.map            ".to_string(), AssetKind::Other, "12.00 MB".to_string(), None),
            ("dist/main.abc.js      ".to_string(), AssetKind::Js, " 2.00 kB".to_string(), Some("5.00 kB".to_string())),
            ("dist/index.css        ".to_string(), AssetKind::Css, " 0.30 kB".to_string(), None),
        ]
    );
}

#[test]
fn equal_sizes_keep_name_order() {
    let assets = vec![asset("b.js", "b.js", 10, "c"), asset("a.js", "a.js", 10, "c")];
    let texts = vec!["0.01 kB".to_string(), "0.01 kB".to_string()];
    let rows = stats_rows("", &assets, &texts);
    let names: Vec<String> = rows.into_iter().map(|r| r.file_name).collect();
    assert_eq!(names, vec!["a.js  ".to_string(), "b.js  ".to_string()]);
}

#[test]
fn stats_info_records_in_order() {
    let mut info = StatsInfo::new();
    info.add_assets(10, "a.js".to_string(), "main".to_string(), "/out/a.js".to_string(), "a.1.js".to_string());
    let assets = info.get_assets();
    assert_eq!(assets.len(), 1);
    assert_eq!(assets[0].assets_type, "asset");
    assert_eq!(assets[0].hashname, "a.1.js");
    info.parse_modules(vec![
        ModuleInfo { id: "a".to_string(), dependencies: vec!["b".to_string()], dependents: vec![] },
        ModuleInfo { id: "a".to_string(), dependencies: vec![], dependents: vec!["c".to_string()] },
    ]);
    let modules = info.get_modules();
    assert_eq!(modules.len(), 1);
    let a = modules.get(&"a".to_string()).unwrap();
    assert!(a.dependencies.is_empty());
    assert_eq!(a.dependents, vec!["c".to_string()]);
    Rsc::emit_client("src/Button.tsx", &mut info);
    info.add_rsc_client_component(RscClientInfo { path: "src/Other.tsx".to_string() });
    let paths: Vec<String> = info.get_rsc_client_components().into_iter().map(|c| c.path).collect();
    assert_eq!(paths, vec!["src/Button.tsx".to_string(), "src/Other.tsx".to_string()]);
    info.clear_assets();
    assert!(info.get_assets().is_empty());
}

#[test]
fn stats_file_of_a_build() {
    let mut info = StatsInfo::new();
    info.add_assets(100, "main.js".to_string(), "main".to_string(), "/out/main.js".to_string(), "main.js".to_string());
    let chunks = vec![
        ChunkInput {
            id: "main".to_string(),
            entry_name: Some("index".to_string()),
            modules: vec![("src/index.js".to_string(), 42), ("src/a.css?modules".to_string(), 7)],
            siblings: vec![],
            origins: vec![],
            entry_dependencies: vec!["vendors".to_string()],
        },
        ChunkInput {
            id: "lazy".to_string(),
            entry_name: None,
            modules: vec![("src/lazy.js".to_string(), 3)],
            siblings: vec!["main".to_string()],
            origins: vec![
                ("src/index.js".to_string(), "/p/src/index.js".to_string(), "10-20".to_string(), "./lazy".to_string()),
                ("src/index.js".to_string(), "/p/src/index.js".to_string(), "30-40".to_string(), "./lazy".to_string()),
            ],
            entry_dependencies: vec![],
        },
    ];
    let map = create_stats_info(7, 1000, "/p".to_string(), "/out", &mut info, &vec![(5, "logo.png".to_string())], &chunks);
    assert_eq!(map.hash, 7);
    assert_eq!(map.built_at, 1000);
    assert_eq!(map.assets.len(), 2);
    assert_eq!(map.assets[1].name, "logo.png");
    assert_eq!(map.assets[1].path, "/out/logo.png");
    assert!(matches!(&map.assets[1].assets_type, StatsJsonType::Asset(t) if t == "asset"));
    assert_eq!(map.chunks.len(), 2);
    let main = &map.chunks[0];
    assert!(main.entry);
    assert_eq!(main.files, vec!["main.js".to_string()]);
    assert_eq!(main.modules.len(), 1);
    assert_eq!(main.modules[0].id, "src/index.js");
    assert_eq!(main.modules[0].size, 42);
    assert_eq!(main.modules[0].chunks, vec!["main".to_string()]);
    let lazy = &map.chunks[1];
    assert!(!lazy.entry);
    assert!(lazy.files.is_empty());
    assert_eq!(lazy.siblings, vec!["main".to_string()]);
    assert_eq!(lazy.origins.len(), 1);
    assert_eq!(lazy.origins[0].loc, "10-20");
    assert_eq!(lazy.origins[0].module_name, "/p/src/index.js");
    assert_eq!(map.chunk_modules.len(), 2);
    let entry = map.entrypoints.get(&"index".to_string()).unwrap();
    assert_eq!(entry.chunks, vec!["vendors".to_string(), "main".to_string()]);
    assert_eq!(info.get_assets().len(), 2);
}

#[test]
fn the_table_names_files_under_the_output_directory() {
    assert_eq!(dist_prefix("/p/dist", "/p"), "dist/");
    assert_eq!(dist_prefix("/p/dist/", "/p"), "dist/");
    assert_eq!(dist_prefix("/p/build/out", "/p"), "build/out/");
    assert_eq!(dist_prefix("/elsewhere/dist", "/p"), "../elsewhere/dist/");
    assert_eq!(dist_prefix("dist", "/p"), "dist/");
}
