use sitegen::kv::ByteMap;
use sitegen::paths::IconError;
use sitegen::registry::{AssetEntry, AssetRegistry, AssetStore};
use sitegen::rewrite::{optimize_assets, RewriteError};

fn empty_registry() -> AssetRegistry {
    ByteMap::new()
}

fn registry_with(src: &[u8], placeholder: &[u8], width: u32) -> AssetRegistry {
    let mut reg: AssetRegistry = ByteMap::new();
    assert!(reg.insert(
        src.to_vec(),
        AssetEntry { placeholder: placeholder.to_vec(), width }
    ));
    reg
}

#[test]
fn plain_text_passes_through() {
    let reg = empty_registry();
    let store = AssetStore::new();
    let html = b"<html><body><p>hello &amp; goodbye</p></body></html>";
    let out = optimize_assets(html, &reg, &store, &[1, 2]).unwrap();
    assert_eq!(out, html.to_vec());
}

#[test]
fn unrelated_elements_pass_through() {
    let reg = empty_registry();
    let store = AssetStore::new();
    let html = b"<link rel=\"icon\" href=\"/favicon.ico\"><img src=\"https://x/y.png\"><i>italic</i>";
    let out = optimize_assets(html, &reg, &store, &[1, 2]).unwrap();
    assert_eq!(out, html.to_vec());
}

#[test]
fn stylesheet_link_becomes_inline_style() {
    let reg = empty_registry();
    let mut store = AssetStore::new();
    store.texts.insert(b"/style.css".to_vec(), b"body{color:red}".to_vec());
    let html = b"<link rel=\"stylesheet\" href=\"/style.css\">";
    let out = optimize_assets(html, &reg, &store, &[1, 2]).unwrap();
    assert_eq!(out, b"<style>body{color:red}</style>".to_vec());
}

#[test]
fn stylesheet_link_with_unquoted_attrs() {
    let reg = empty_registry();
    let mut store = AssetStore::new();
    store.texts.insert(b"/style.css".to_vec(), b"body{color:red}".to_vec());
    let html = b"<p>a</p><link rel=stylesheet href=/style.css><p>b</p>";
    let out = optimize_assets(html, &reg, &store, &[1, 2]).unwrap();
    assert_eq!(out, b"<p>a</p><style>body{color:red}</style><p>b</p>".to_vec());
}

#[test]
fn missing_stylesheet_reports_its_path() {
    let reg = empty_registry();
    let store = AssetStore::new();
    let html = b"<link rel=\"stylesheet\" href=\"/style.css\">";
    match optimize_assets(html, &reg, &store, &[1, 2]) {
        Err(RewriteError::MissingText { path }) => assert_eq!(path, b"/style.css".to_vec()),
        _ => panic!("expected a missing text error"),
    }
}

#[test]
fn script_becomes_inline_module() {
    let reg = empty_registry();
    let mut store = AssetStore::new();
    store.texts.insert(b"/app.js".to_vec(), b"console.log(1)".to_vec());
    let html = b"<script src=\"/app.js\"></script>";
    let out = optimize_assets(html, &reg, &store, &[1, 2]).unwrap();
    assert_eq!(out, b"<script type='module'>console.log(1)</script>".to_vec());
}

#[test]
fn inline_script_passes_through_with_content() {
    let reg = empty_registry();
    let store = AssetStore::new();
    let html = b"<script>if (1<2) { go(); }</script><p>x</p>";
    let out = optimize_assets(html, &reg, &store, &[1, 2]).unwrap();
    assert_eq!(out, html.to_vec());
}

#[test]
fn unclosed_matched_script_is_an_error() {
    let reg = empty_registry();
    let mut store = AssetStore::new();
    store.texts.insert(b"/app.js".to_vec(), b"x".to_vec());
    let html = b"<script src=\"/app.js\">";
    match optimize_assets(html, &reg, &store, &[1, 2]) {
        Err(RewriteError::UnclosedElement { name }) => assert_eq!(name, b"script".to_vec()),
        _ => panic!("expected an unclosed element error"),
    }
}

#[test]
fn icon_is_replaced_verbatim() {
    let reg = empty_registry();
    let mut store = AssetStore::new();
    store
        .texts
        .insert(b"svgs/brands/github.svg".to_vec(), b"<svg>github</svg>".to_vec());
    let html = b"<i class=\"fab fa-github\"></i>";
    let out = optimize_assets(html, &reg, &store, &[1, 2]).unwrap();
    assert_eq!(out, b"<svg>github</svg>".to_vec());
}

#[test]
fn unsupported_icon_family_aborts() {
    let reg = empty_registry();
    let store = AssetStore::new();
    let html = b"<i class=\"foo fa-x\"></i>";
    match optimize_assets(html, &reg, &store, &[1, 2]) {
        Err(RewriteError::Icon { error, class }) => {
            assert_eq!(error, IconError::UnsupportedFamily);
            assert_eq!(class, b"foo fa-x".to_vec());
        }
        _ => panic!("expected an icon error, never silent markup"),
    }
}

#[test]
fn img_gets_srcset_and_placeholder() {
    let reg = registry_with(b"/a.png", b"HASH", 2000);
    let mut store = AssetStore::new();
    store.sizes.insert(b"/a.png".to_vec(), 1000);
    store.sizes.insert(b"/a_1x.png".to_vec(), 100);
    store.sizes.insert(b"/a_2x.png".to_vec(), 200);
    let html = b"<img src=\"/a.png\">";
    let out = optimize_assets(html, &reg, &store, &[1, 2]).unwrap();
    assert_eq!(
        out,
        b"<img src=\"/a.png\" srcset=\"/a_1x.png 1x, /a_2x.png 2x, /a.png 8.19672x\" data-thumbhash=\"HASH\">"
            .to_vec()
    );
}

#[test]
fn img_with_larger_variant_advertises_source() {
    let reg = registry_with(b"/a.png", b"PH", 488);
    let mut store = AssetStore::new();
    store.sizes.insert(b"/a.png".to_vec(), 100);
    store.sizes.insert(b"/a_1x.png".to_vec(), 100);
    store.sizes.insert(b"/a_2x.png".to_vec(), 50);
    let html = b"<img src=\"/a.png\">";
    let out = optimize_assets(html, &reg, &store, &[1, 2]).unwrap();
    assert_eq!(
        out,
        b"<img src=\"/a.png\" srcset=\"/a.png 1x, /a_2x.png 2x, /a.png 2x\" data-thumbhash=\"PH\">"
            .to_vec()
    );
}

#[test]
fn img_keeps_other_attributes_and_replaces_srcset() {
    let reg = registry_with(b"/a.png", b"PH", 244);
    let mut store = AssetStore::new();
    store.sizes.insert(b"/a.png".to_vec(), 300);
    store.sizes.insert(b"/a_1x.png".to_vec(), 100);
    let html = b"<img alt=\"a 'fine' image\" src=\"/a.png\" srcset=\"old\" loading=lazy>";
    let out = optimize_assets(html, &reg, &store, &[1]).unwrap();
    assert_eq!(
        out,
        b"<img alt=\"a 'fine' image\" src=\"/a.png\" loading=\"lazy\" srcset=\"/a_1x.png 1x, /a.png 1x\" data-thumbhash=\"PH\">"
            .to_vec()
    );
}

#[test]
fn unregistered_img_aborts() {
    let reg = empty_registry();
    let mut store = AssetStore::new();
    store.sizes.insert(b"/a.png".to_vec(), 300);
    let html = b"<img src=\"/a.png\">";
    match optimize_assets(html, &reg, &store, &[1, 2]) {
        Err(RewriteError::UnregisteredAsset { src }) => assert_eq!(src, b"/a.png".to_vec()),
        _ => panic!("expected an unregistered asset error"),
    }
}

#[test]
fn registered_img_is_never_a_registry_miss() {
    // the registry covers the one referenced image; whatever the store
    // lacks, the pass must never report an unregistered asset
    let reg = registry_with(b"/a.png", b"PH", 500);
    let store = AssetStore::new();
    let html = b"<img src=\"/a.png\">";
    match optimize_assets(html, &reg, &store, &[1, 2]) {
        Err(RewriteError::UnregisteredAsset { .. }) => {
            panic!("a covered registry must never be observed to miss")
        }
        _ => {}
    }
}

#[test]
fn driver_loop_converges_with_incremental_store() {
    // the intended driver: run, answer the missing read, run again
    let reg = registry_with(b"/a.png", b"PH", 2000);
    let mut store = AssetStore::new();
    let html = b"<link rel=\"stylesheet\" href=\"/style.css\"><img src=\"/a.png\">";
    let mut rounds = 0;
    loop {
        rounds += 1;
        assert!(rounds < 10);
        match optimize_assets(html, &reg, &store, &[1, 2]) {
            Ok(out) => {
                assert_eq!(
                    out,
                    b"<style>css</style><img src=\"/a.png\" srcset=\"/a_1x.png 1x, /a_2x.png 2x, /a.png 8.19672x\" data-thumbhash=\"PH\">"
                        .to_vec()
                );
                break;
            }
            Err(RewriteError::MissingText { path }) => {
                assert_eq!(path, b"/style.css".to_vec());
                store.texts.insert(path, b"css".to_vec());
            }
            Err(RewriteError::MissingSize { path }) => {
                let size: u64 = if path == b"/a.png".to_vec() {
                    1000
                } else if path == b"/a_1x.png".to_vec() {
                    100
                } else {
                    200
                };
                store.sizes.insert(path, size);
            }
            Err(_) => panic!("unexpected error"),
        }
    }
}

#[test]
fn full_page_scenario() {
    let reg = registry_with(b"/images/plants.webp", b"TH", 732);
    let mut store = AssetStore::new();
    store.texts.insert(b"/main.css".to_vec(), b"p{margin:0}".to_vec());
    store.sizes.insert(b"/images/plants.webp".to_vec(), 9000);
    store.sizes.insert(b"/images/plants_1x.webp".to_vec(), 4000);
    store.sizes.insert(b"/images/plants_2x.webp".to_vec(), 8000);
    store
        .texts
        .insert(b"svgs/solid/comment.svg".to_vec(), b"<svg/>".to_vec());
    let html = b"<html><head><link rel=\"stylesheet\" href=\"/main.css\"></head>\
<body><img src=\"/images/plants.webp\" alt=\"plants\"><i class=\"fas fa-comment\"></i></body></html>";
    let out = optimize_assets(html, &reg, &store, &[1, 2]).unwrap();
    assert_eq!(
        out,
        b"<html><head><style>p{margin:0}</style></head>\
<body><img src=\"/images/plants.webp\" alt=\"plants\" srcset=\"/images/plants_1x.webp 1x, /images/plants_2x.webp 2x, /images/plants.webp 3x\" data-thumbhash=\"TH\"><svg/></body></html>"
            .to_vec()
    );
}

#[test]
fn img_attribute_values_are_quote_escaped() {
    let reg = registry_with(b"/a.png", b"PH", 244);
    let mut store = AssetStore::new();
    store.sizes.insert(b"/a.png".to_vec(), 300);
    store.sizes.insert(b"/a_1x.png".to_vec(), 100);
    let html = b"<img alt='say \"hi\"' src=\"/a.png\">";
    let out = optimize_assets(html, &reg, &store, &[1]).unwrap();
    assert_eq!(
        out,
        b"<img alt=\"say &quot;hi&quot;\" src=\"/a.png\" srcset=\"/a_1x.png 1x, /a.png 1x\" data-thumbhash=\"PH\">"
            .to_vec()
    );
}

#[test]
fn empty_document_rewrites_to_empty() {
    let reg = empty_registry();
    let store = AssetStore::new();
    let out = optimize_assets(b"", &reg, &store, &[1, 2]).unwrap();
    assert_eq!(out, b"".to_vec());
}

#[test]
fn img_without_extension_aborts() {
    let reg = registry_with(b"/noext", b"PH", 500);
    let mut store = AssetStore::new();
    store.sizes.insert(b"/noext".to_vec(), 100);
    let html = b"<img src=\"/noext\">";
    match optimize_assets(html, &reg, &store, &[1]) {
        Err(RewriteError::NoExtension { src }) => assert_eq!(src, b"/noext".to_vec()),
        _ => panic!("expected a missing extension error"),
    }
}

#[test]
fn img_valueless_attribute_is_kept_with_empty_value() {
    let reg = registry_with(b"/a.png", b"PH", 244);
    let mut store = AssetStore::new();
    store.sizes.insert(b"/a.png".to_vec(), 300);
    store.sizes.insert(b"/a_1x.png".to_vec(), 100);
    let html = b"<img ismap src=\"/a.png\">";
    let out = optimize_assets(html, &reg, &store, &[1]).unwrap();
    assert_eq!(
        out,
        b"<img ismap=\"\" src=\"/a.png\" srcset=\"/a_1x.png 1x, /a.png 1x\" data-thumbhash=\"PH\">"
            .to_vec()
    );
}

#[test]
fn byte_map_is_write_once() {
    let mut m: ByteMap<u64> = ByteMap::new();
    assert_eq!(m.len(), 0);
    assert!(m.insert(b"k".to_vec(), 1));
    assert!(!m.insert(b"k".to_vec(), 2));
    assert_eq!(m.len(), 1);
    assert_eq!(m.get(b"k"), Some(&1));
    assert_eq!(m.get(b"other"), None);
    assert!(m.contains_key(b"k"));
    assert!(!m.contains_key(b"other"));
}
