use aurelia::image_cache::{image_cache_name, is_cached_image, is_image_of};

#[test]
fn cache_names_carry_size_and_quality() {
    assert_eq!(image_cache_name("item1", "Primary", None, None), "item1_Primary");
    assert_eq!(image_cache_name("item1", "Primary", Some(300), None), "item1_Primary_w300");
    assert_eq!(image_cache_name("item1", "Primary", Some(300), Some(90)), "item1_Primary_w300_q90");
    assert_eq!(image_cache_name("item1", "Backdrop", None, Some(0)), "item1_Backdrop_q0");
}

#[test]
fn cached_files_match_name_or_name_with_extension() {
    assert!(is_cached_image("item1_Primary", "item1_Primary"));
    assert!(is_cached_image("item1_Primary.jpg", "item1_Primary"));
    assert!(!is_cached_image("item1_Primary_w300.jpg", "item1_Primary"));
    assert!(!is_cached_image("item1_Prim", "item1_Primary"));
    assert!(is_image_of("item1_Primary_w300.jpg", "item1", "Primary"));
    assert!(!is_image_of("item2_Primary.jpg", "item1", "Primary"));
}
