use sitegen::paths::{filename_drop_ext, icon_path, variant_path, IconError};
use sitegen::srcset::build_srcset;

#[test]
fn variant_path_simple() {
    assert_eq!(variant_path(b"/a.png", 1), Some(b"/a_1x.png".to_vec()));
    assert_eq!(variant_path(b"/a.png", 2), Some(b"/a_2x.png".to_vec()));
}

#[test]
fn variant_path_nested_dir() {
    assert_eq!(
        variant_path(b"/images/plants.webp", 2),
        Some(b"/images/plants_2x.webp".to_vec())
    );
    assert_eq!(
        variant_path(b"public/images/plants.webp", 1),
        Some(b"public/images/plants_1x.webp".to_vec())
    );
}

#[test]
fn variant_path_repeated_extension_stops_at_the_dot() {
    assert_eq!(variant_path(b"/x.png.png", 1), Some(b"/x.png_1x.png".to_vec()));
    assert_eq!(variant_path(b"/x.pngpng", 1), Some(b"/x_1x.pngpng".to_vec()));
}

#[test]
fn variant_path_without_extension() {
    assert_eq!(variant_path(b"/noext", 1), None);
    assert_eq!(variant_path(b"/dir.d/noext", 1), None);
    assert_eq!(variant_path(b"/.hidden", 1), None);
}

#[test]
fn variant_path_is_deterministic_and_order_independent() {
    let a1 = variant_path(b"/images/plants.webp", 1);
    let b2 = variant_path(b"/images/other.png", 2);
    let a2 = variant_path(b"/images/plants.webp", 1);
    let b1 = variant_path(b"/images/other.png", 2);
    assert_eq!(a1, a2);
    assert_eq!(b2, b1);
}

#[test]
fn filename_drop_ext_takes_last_component() {
    assert_eq!(
        filename_drop_ext(b"content/blog/post.md", b".md"),
        Some(b"post".to_vec())
    );
    assert_eq!(filename_drop_ext(b"post.md", b".md"), Some(b"post".to_vec()));
}

#[test]
fn filename_drop_ext_mismatch() {
    assert_eq!(filename_drop_ext(b"content/blog/post.md", b".yaml"), None);
}

#[test]
fn icon_path_brands() {
    assert_eq!(icon_path(b"fab fa-github"), Ok(b"svgs/brands/github.svg".to_vec()));
    assert_eq!(icon_path(b"fab fa-linkedin"), Ok(b"svgs/brands/linkedin.svg".to_vec()));
}

#[test]
fn icon_path_solid() {
    assert_eq!(icon_path(b"fas fa-comment"), Ok(b"svgs/solid/comment.svg".to_vec()));
}

#[test]
fn icon_path_repeated_prefix_is_trimmed() {
    assert_eq!(icon_path(b"fab fa-fa-x"), Ok(b"svgs/brands/x.svg".to_vec()));
}

#[test]
fn icon_path_unknown_family_is_an_error() {
    assert_eq!(icon_path(b"foo fa-x"), Err(IconError::UnsupportedFamily));
}

#[test]
fn icon_path_missing_name_is_an_error() {
    assert_eq!(icon_path(b"fab"), Err(IconError::MissingName));
}

#[test]
fn srcset_both_variants_smaller() {
    let out = build_srcset(b"/a.png", &[1, 2], &[100, 200], 300, 2000);
    assert_eq!(out, b"/a_1x.png 1x, /a_2x.png 2x, /a.png 8.19672x".to_vec());
}

#[test]
fn srcset_larger_variant_keeps_source_url() {
    let out = build_srcset(b"/a.png", &[1, 2], &[300, 100], 300, 488);
    assert_eq!(out, b"/a.png 1x, /a_2x.png 2x, /a.png 2x".to_vec());
}

#[test]
fn srcset_equal_size_counts_as_not_smaller() {
    let out = build_srcset(b"/a.png", &[1], &[300], 300, 244);
    assert_eq!(out, b"/a.png 1x, /a.png 1x".to_vec());
}

#[test]
fn srcset_trailing_scale_is_truncated_to_five_digits() {
    let out = build_srcset(b"/a.png", &[], &[], 100, 2000);
    assert_eq!(out, b"/a.png 8.19672x".to_vec());
}

#[test]
fn srcset_with_extreme_sizes() {
    let out = build_srcset(b"/a.png", &[1], &[u64::MAX], u64::MAX, 244);
    assert_eq!(out, b"/a.png 1x, /a.png 1x".to_vec());
    let out = build_srcset(b"/a.png", &[1], &[0], u64::MAX, 244);
    assert_eq!(out, b"/a_1x.png 1x, /a.png 1x".to_vec());
}

#[test]
fn srcset_trailing_scale_trims_zeros() {
    // 61/244 = 0.25 exactly
    let out = build_srcset(b"/a.png", &[], &[], 100, 61);
    assert_eq!(out, b"/a.png 0.25x".to_vec());
    // 488/244 = 2 exactly
    let out = build_srcset(b"/a.png", &[], &[], 100, 488);
    assert_eq!(out, b"/a.png 2x".to_vec());
    let out = build_srcset(b"/a.png", &[], &[], 100, 0);
    assert_eq!(out, b"/a.png 0x".to_vec());
}
