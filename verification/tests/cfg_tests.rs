use delegated_enum::{enum_from_variant_value, variant_try_from_enum_value, SumValue};

// The variants of a guarded declaration, by position: guards are filtered
// before this library runs, so the model carries every variant that
// survived, and the sum values below mirror the runtime of the emitted
// enum.

#[test]
fn test_always_available_variant() {
    let value = enum_from_variant_value(0, 42);
    match variant_try_from_enum_value(0, value) {
        Ok(x) => assert_eq!(x, 42),
        Err(_) => panic!("Expected AlwaysAvailable variant"),
    }
}

#[test]
fn test_feature_gated_variant() {
    let value = enum_from_variant_value(1, "test".to_string());
    match variant_try_from_enum_value(1, value) {
        Ok(x) => assert_eq!(x, "test"),
        Err(_) => panic!("Expected TestFeature variant"),
    }
}

#[test]
fn test_linux_only_variant() {
    let value = enum_from_variant_value(2, vec![1u8, 2, 3]);
    match variant_try_from_enum_value(2, value) {
        Ok(data) => assert_eq!(data, vec![1, 2, 3]),
        Err(_) => panic!("Expected LinuxOnly variant"),
    }
}

#[test]
fn test_windows_only_variant() {
    let value = enum_from_variant_value(3, 12345u64);
    match variant_try_from_enum_value(3, value) {
        Ok(handle) => assert_eq!(handle, 12345),
        Err(_) => panic!("Expected WindowsOnly variant"),
    }
}

#[test]
fn test_debug_only_variant() {
    let value: SumValue<i32> = SumValue { variant: 4, fields: vec![] };
    assert!(matches!(value, SumValue { variant: 4, .. }));
}

#[test]
fn test_release_only_variant() {
    let value = enum_from_variant_value(5, 3.14f64);
    match variant_try_from_enum_value(5, value) {
        Ok(x) => assert_eq!(x, 3.14),
        Err(_) => panic!("Expected ReleaseOnly variant"),
    }
}

#[test]
fn test_unix_64bit_variant() {
    let value = enum_from_variant_value(6, 1024usize);
    match variant_try_from_enum_value(6, value) {
        Ok(size) => assert_eq!(size, 1024),
        Err(_) => panic!("Expected Unix64Bit variant"),
    }
}

#[test]
fn test_x86_architecture_variant() {
    let value = enum_from_variant_value(7, true);
    match variant_try_from_enum_value(7, value) {
        Ok(flag) => assert!(flag),
        Err(_) => panic!("Expected X86Architecture variant"),
    }
}

#[test]
fn test_complex_cfg_base_variant() {
    let value = enum_from_variant_value(0, 42);
    match variant_try_from_enum_value(0, value) {
        Ok(x) => assert_eq!(x, 42),
        Err(_) => panic!("Expected Base variant"),
    }
}

#[test]
fn test_advanced_non_windows_variant() {
    let value = enum_from_variant_value(1, (100, "cond_comp_advanced".to_string()));
    match variant_try_from_enum_value(1, value) {
        Ok((num, text)) => {
            assert_eq!(num, 100);
            assert_eq!(text, "cond_comp_advanced");
        }
        Err(_) => panic!("Expected AdvancedNonWindows variant"),
    }
}

#[test]
fn test_beta_or_experimental_variant() {
    let value = enum_from_variant_value(
        2,
        ("test", vec!["meta1".to_string(), "meta2".to_string()]),
    );
    match variant_try_from_enum_value(2, value) {
        Ok((v, metadata)) => {
            assert_eq!(v, "test");
            assert_eq!(metadata.len(), 2);
        }
        Err(_) => panic!("Expected BetaOrExperimental variant"),
    }
}

#[test]
fn test_unix_family_variant() {
    let value: SumValue<i32> = SumValue { variant: 3, fields: vec![] };
    assert!(matches!(value, SumValue { variant: 3, .. }));
}

#[test]
fn test_configurable_settings_base() {
    let settings = enum_from_variant_value(0, "base config".to_string());
    match variant_try_from_enum_value(0, settings) {
        Ok(config) => assert_eq!(config, "base config"),
        Err(_) => panic!("Expected BaseSettings variant"),
    }
}

#[test]
fn test_graphics_settings_variant() {
    let graphics = ((1920u32, 1080u32), true);
    let settings = enum_from_variant_value(1, graphics);
    match variant_try_from_enum_value(1, settings) {
        Ok((resolution, vsync)) => {
            assert_eq!(resolution, (1920, 1080));
            assert!(vsync);
        }
        Err(_) => panic!("Expected GraphicsSettings variant"),
    }
}

#[test]
fn test_audio_settings_variant() {
    let audio = (0.8f32, 2u8);
    let settings = enum_from_variant_value(2, audio);
    match variant_try_from_enum_value(2, settings) {
        Ok((volume, channels)) => {
            assert_eq!(volume, 0.8);
            assert_eq!(channels, 2);
        }
        Err(_) => panic!("Expected AudioSettings variant"),
    }
}

#[test]
fn test_network_settings_variant() {
    let network = (30u64, 100u32);
    let settings = enum_from_variant_value(3, network);
    match variant_try_from_enum_value(3, settings) {
        Ok((timeout_secs, max_connections)) => {
            assert_eq!(timeout_secs, 30);
            assert_eq!(max_connections, 100);
        }
        Err(_) => panic!("Expected NetworkSettings variant"),
    }
}

#[test]
fn test_pattern_matching_with_cfg() {
    let value = enum_from_variant_value(0, 999);
    let result = match variant_try_from_enum_value(0, value) {
        Ok(x) => format!("always: {}", x),
        Err(other) => format!("other: {}", other.variant),
    };
    assert_eq!(result, "always: 999");
}

#[test]
fn test_cfg_compilation_variants_exist() {
    let always = enum_from_variant_value(0, 1);
    assert!(matches!(always, SumValue { variant: 0, .. }));
    let base = enum_from_variant_value(0, 1);
    assert!(matches!(base, SumValue { variant: 0, .. }));
}
