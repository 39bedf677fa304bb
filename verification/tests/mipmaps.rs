use image_loader::mipmap::{
    floor_log2_u32, max_mipmap_count, mipmap_level_count, mipmap_setting, MipmapSetting,
};

#[test]
fn tiny_image_gets_a_single_level() {
    assert_eq!(mipmap_level_count(1, 1), 1);
}

#[test]
fn large_square_image_is_capped_at_four_levels() {
    assert_eq!(mipmap_level_count(256, 256), 4);
    assert_eq!(mipmap_level_count(4096, 4096), 4);
}

#[test]
fn three_by_five_image_gets_a_single_level() {
    assert_eq!(mipmap_level_count(3, 5), 1);
}

#[test]
fn smaller_dimension_limits_the_cap() {
    assert_eq!(max_mipmap_count(1024, 8), 3);
    assert_eq!(max_mipmap_count(8, 1024), 3);
    assert_eq!(max_mipmap_count(2, 2), 1);
    assert_eq!(max_mipmap_count(1, 100), 0);
}

#[test]
fn cap_of_one_disables_mipmapping() {
    assert!(matches!(mipmap_setting(3, 5), MipmapSetting::NoMipmap));
    assert!(matches!(mipmap_setting(2, 1024), MipmapSetting::NoMipmap));
}

#[test]
fn larger_caps_request_auto_generation() {
    assert!(matches!(mipmap_setting(4, 4), MipmapSetting::AutoGeneratedMax(2)));
    assert!(matches!(mipmap_setting(256, 256), MipmapSetting::AutoGeneratedMax(4)));
    assert!(matches!(mipmap_setting(1, 1), MipmapSetting::AutoGeneratedMax(0)));
}

#[test]
fn floor_log2_rounds_down() {
    assert_eq!(floor_log2_u32(1), 0);
    assert_eq!(floor_log2_u32(2), 1);
    assert_eq!(floor_log2_u32(3), 1);
    assert_eq!(floor_log2_u32(4), 2);
    assert_eq!(floor_log2_u32(255), 7);
    assert_eq!(floor_log2_u32(256), 8);
    assert_eq!(floor_log2_u32(u32::MAX), 31);
}
