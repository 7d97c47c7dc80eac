use niri_tools::config::{OutputOverride, PositionConfig, ScratchpadConfig, SizeConfig};
use niri_tools::geometry::{calculate_expected_window_size, convert_position_to_pixels, matches_config};
use niri_tools::strmap::StrMap;
use niri_tools::types::{OutputInfo, WindowInfo};

fn make_config(name: &str) -> ScratchpadConfig {
    ScratchpadConfig {
        name: name.to_string(),
        command: Some(vec!["ghostty".to_string()]),
        app_id: Some("ghostty".to_string()),
        title: None,
        auto_adopt: false,
        key: None,
        desc: None,
        size: Some(SizeConfig {
            width: "60%".to_string(),
            height: "60%".to_string(),
        }),
        position: Some(PositionConfig {
            x: "50%".to_string(),
            y: "50%".to_string(),
        }),
        output_overrides: StrMap::new(),
    }
}

fn make_window(id: u64, app_id: &str, is_focused: bool, is_floating: bool, workspace_id: Option<u64>) -> WindowInfo {
    WindowInfo {
        id,
        app_id: app_id.to_string(),
        title: "test".to_string(),
        workspace_id,
        is_focused,
        is_floating,
        width: 800,
        height: 600,
    }
}

#[test]
fn convert_position_to_pixels_percentage_values() {
    // 20% of (1920 - 800) = 20% of 1120 = 224
    // 30% of (1080 - 600) = 30% of 480 = 144
    let (x, y) = convert_position_to_pixels("20%", "30%", 1920, 1080, 800, 600);
    assert_eq!(x, 224);
    assert_eq!(y, 144);
}

#[test]
fn convert_position_to_pixels_pixel_values() {
    let (x, y) = convert_position_to_pixels("100", "200", 1920, 1080, 800, 600);
    assert_eq!(x, 100);
    assert_eq!(y, 200);
}

#[test]
fn convert_position_to_pixels_50_percent_centers_window() {
    // 50% of (1920 - 800) = 50% of 1120 = 560
    // 50% of (1080 - 600) = 50% of 480 = 240
    let (x, y) = convert_position_to_pixels("50%", "50%", 1920, 1080, 800, 600);
    assert_eq!(x, 560);
    assert_eq!(y, 240);
}

#[test]
fn convert_position_to_pixels_0_percent_is_top_left() {
    let (x, y) = convert_position_to_pixels("0%", "0%", 1920, 1080, 800, 600);
    assert_eq!(x, 0);
    assert_eq!(y, 0);
}

#[test]
fn convert_position_to_pixels_100_percent_is_bottom_right() {
    // 100% of (1920 - 800) = 1120
    // 100% of (1080 - 600) = 480
    let (x, y) = convert_position_to_pixels("100%", "100%", 1920, 1080, 800, 600);
    assert_eq!(x, 1120);
    assert_eq!(y, 480);
}

#[test]
fn convert_position_to_pixels_window_larger_than_output() {
    // max_pos = max(0, 800 - 1920) = 0
    let (x, y) = convert_position_to_pixels("50%", "50%", 800, 600, 1920, 1080);
    assert_eq!(x, 0);
    assert_eq!(y, 0);
}

// -- calculate_expected_window_size --

#[test]
fn calculate_expected_window_size_percentage() {
    let config = make_config("term");
    let output = OutputInfo {
        name: "eDP-1".to_string(),
        width: 1920,
        height: 1080,
    };
    // 60% of 1920 = 1152, 60% of 1080 = 648
    let (w, h) = calculate_expected_window_size(&config, &output);
    assert_eq!(w, 1152);
    assert_eq!(h, 648);
}

#[test]
fn calculate_expected_window_size_pixel_values() {
    let config = ScratchpadConfig {
        name: "term".to_string(),
        command: Some(vec!["foot".to_string()]),
        app_id: Some("foot".to_string()),
        title: None,
        size: Some(SizeConfig {
            width: "800".to_string(),
            height: "600".to_string(),
        }),
        position: None,
        key: None,
        desc: None,
        auto_adopt: false,
        output_overrides: StrMap::new(),
    };
    let output = OutputInfo {
        name: "eDP-1".to_string(),
        width: 1920,
        height: 1080,
    };
    let (w, h) = calculate_expected_window_size(&config, &output);
    assert_eq!(w, 800);
    assert_eq!(h, 600);
}

#[test]
fn calculate_expected_window_size_with_output_override() {
    let mut overrides = StrMap::new();
    overrides.insert(
        "eDP-1".to_string(),
        OutputOverride {
            size: Some(SizeConfig {
                width: "80%".to_string(),
                height: "80%".to_string(),
            }),
            position: None,
        },
    );

    let config = ScratchpadConfig {
        name: "term".to_string(),
        command: Some(vec!["foot".to_string()]),
        app_id: Some("foot".to_string()),
        title: None,
        size: Some(SizeConfig {
            width: "60%".to_string(),
            height: "60%".to_string(),
        }),
        position: None,
        key: None,
        desc: None,
        auto_adopt: false,
        output_overrides: overrides,
    };
    let output = OutputInfo {
        name: "eDP-1".to_string(),
        width: 1920,
        height: 1080,
    };
    // Override: 80% of 1920 = 1536, 80% of 1080 = 864
    let (w, h) = calculate_expected_window_size(&config, &output);
    assert_eq!(w, 1536);
    assert_eq!(h, 864);
}

#[test]
fn calculate_expected_window_size_no_size_config() {
    let config = ScratchpadConfig {
        name: "term".to_string(),
        command: None,
        app_id: None,
        title: None,
        size: None,
        position: None,
        key: None,
        desc: None,
        auto_adopt: false,
        output_overrides: StrMap::new(),
    };
    let output = OutputInfo {
        name: "eDP-1".to_string(),
        width: 1920,
        height: 1080,
    };
    // No size config = full output
    let (w, h) = calculate_expected_window_size(&config, &output);
    assert_eq!(w, 1920);
    assert_eq!(h, 1080);
}

// -- matches_config --

#[test]
fn matches_config_exact_app_id_match() {
    let config = make_config("term");
    let window = make_window(1, "ghostty", false, false, Some(1));
    assert!(matches_config(&window, &config));
}

#[test]
fn matches_config_exact_app_id_no_match() {
    let config = make_config("term");
    let window = make_window(1, "foot", false, false, Some(1));
    assert!(!matches_config(&window, &config));
}

#[test]
fn matches_config_regex_app_id_with_slash() {
    let config = ScratchpadConfig {
        name: "term".to_string(),
        command: None,
        app_id: Some("/ghost.*".to_string()),
        title: None,
        size: None,
        position: None,
        key: None,
        desc: None,
        auto_adopt: false,
        output_overrides: StrMap::new(),
    };
    let window = make_window(1, "ghostty", false, false, Some(1));
    assert!(matches_config(&window, &config));

    let window2 = make_window(2, "foot", false, false, Some(1));
    assert!(!matches_config(&window2, &config));
}

#[test]
fn matches_config_regex_title_with_caret() {
    let config = ScratchpadConfig {
        name: "term".to_string(),
        command: None,
        app_id: None,
        title: Some("^Terminal.*".to_string()),
        size: None,
        position: None,
        key: None,
        desc: None,
        auto_adopt: false,
        output_overrides: StrMap::new(),
    };
    let mut window = make_window(1, "foot", false, false, Some(1));
    window.title = "Terminal - bash".to_string();
    assert!(matches_config(&window, &config));

    let mut window2 = make_window(2, "foot", false, false, Some(1));
    window2.title = "Not a terminal".to_string();
    assert!(!matches_config(&window2, &config));
}

#[test]
fn matches_config_no_criteria_matches_everything() {
    let config = ScratchpadConfig {
        name: "term".to_string(),
        command: None,
        app_id: None,
        title: None,
        size: None,
        position: None,
        key: None,
        desc: None,
        auto_adopt: false,
        output_overrides: StrMap::new(),
    };
    let window = make_window(1, "anything", false, false, Some(1));
    assert!(matches_config(&window, &config));
}

#[test]
fn matches_config_both_app_id_and_title_must_match() {
    let config = ScratchpadConfig {
        name: "term".to_string(),
        command: None,
        app_id: Some("ghostty".to_string()),
        title: Some("Terminal".to_string()),
        size: None,
        position: None,
        key: None,
        desc: None,
        auto_adopt: false,
        output_overrides: StrMap::new(),
    };

    let mut window = make_window(1, "ghostty", false, false, Some(1));
    window.title = "Terminal".to_string();
    assert!(matches_config(&window, &config));

    // app_id matches but title doesn't
    let mut window2 = make_window(2, "ghostty", false, false, Some(1));
    window2.title = "Other".to_string();
    assert!(!matches_config(&window2, &config));

    // title matches but app_id doesn't
    let mut window3 = make_window(3, "foot", false, false, Some(1));
    window3.title = "Terminal".to_string();
    assert!(!matches_config(&window3, &config));
}

#[test]
fn percentages_round_half_up_and_saturate() {
    // 12.5% of 100 = 12.5, rounded up to 13
    let (x, _) = convert_position_to_pixels("12.5%", "0", 200, 100, 100, 50);
    assert_eq!(x, 13);
    // negative percentages give negative positions
    let (x, _) = convert_position_to_pixels("-10%", "0", 200, 100, 100, 50);
    assert_eq!(x, -10);
    // unreadable values fall back to 0
    let (x, y) = convert_position_to_pixels("abc%", "x", 200, 100, 100, 50);
    assert_eq!((x, y), (0, 0));
    // surrounding spaces are ignored
    let (x, y) = convert_position_to_pixels("  25 % ", " 7 ", 200, 100, 100, 50);
    assert_eq!((x, y), (25, 7));
}

#[test]
fn size_percentage_fallbacks() {
    let mut config = make_config("t");
    config.size = Some(SizeConfig {
        width: "bogus%".to_string(),
        height: "nope".to_string(),
    });
    let output = OutputInfo {
        name: "eDP-1".to_string(),
        width: 1000,
        height: 500,
    };
    // unreadable percentage counts as 100%, unreadable pixels as the whole side
    assert_eq!(calculate_expected_window_size(&config, &output), (1000, 500));
    config.size = Some(SizeConfig {
        width: "33.3%".to_string(),
        height: "-5%".to_string(),
    });
    assert_eq!(calculate_expected_window_size(&config, &output), (333, 0));
}

#[test]
fn invalid_regex_matches_nothing() {
    let mut config = make_config("t");
    config.app_id = Some("/ghost(".to_string());
    let window = make_window(1, "ghostty", false, false, None);
    assert!(!matches_config(&window, &config));
}

#[test]
fn percentages_keep_the_window_on_screen() {
    assert_eq!(convert_position_to_pixels("0%", "100%", 1920, 1080, 800, 600), (0, 480));
    assert_eq!(convert_position_to_pixels("37.5%", "99.9%", 1920, 1080, 800, 600), (420, 480));
    // a larger percentage never moves the window back
    let (a, _) = convert_position_to_pixels("33%", "0%", 1921, 1080, 800, 600);
    let (b, _) = convert_position_to_pixels("33.01%", "0%", 1921, 1080, 800, 600);
    assert!(a <= b);
    // percentages are read as f64 parsing reads them, exponents included
    assert_eq!(convert_position_to_pixels("1e1%", "1e1%", 1920, 1080, 800, 600), (112, 48));
}

#[test]
fn percentages_in_every_float_form() {
    // room 1120 x 480
    let pos = |x: &str, y: &str| convert_position_to_pixels(x, y, 1920, 1080, 800, 600);
    assert_eq!(pos("1.5e1%", "2E-1%"), (168, 1));
    assert_eq!(pos("+5e+1%", "-0e5%"), (560, 0));
    assert_eq!(pos("inf%", "-Infinity%"), (i32::MAX, i32::MIN));
    assert_eq!(pos("NaN%", "-nan%"), (0, 0));
    assert_eq!(pos("1e400%", "-1e400%"), (i32::MAX, i32::MIN));
    assert_eq!(pos("1e-400%", "123456789e-30%"), (0, 0));
    assert_eq!(pos(".5e2%", "5.e1%"), (560, 240));
    // not numbers: 0%
    assert_eq!(pos("1e%", "e1%"), (0, 0));
    assert_eq!(pos("infin%", "1e1.5%"), (0, 0));
    // no room: 0 times infinity is NaN, which casts to 0
    assert_eq!(convert_position_to_pixels("inf%", "1e400%", 800, 600, 800, 600), (0, 0));
}

#[test]
fn sizes_in_every_float_form() {
    let config = |w: &str, h: &str| ScratchpadConfig {
        name: "t".to_string(),
        command: None,
        app_id: None,
        title: None,
        auto_adopt: false,
        key: None,
        desc: None,
        size: Some(SizeConfig { width: w.to_string(), height: h.to_string() }),
        position: None,
        output_overrides: StrMap::new(),
    };
    let out = OutputInfo { name: "DP-1".to_string(), width: 1920, height: 1080 };
    assert_eq!(calculate_expected_window_size(&config("5e1%", "1E2%"), &out), (960, 1080));
    assert_eq!(calculate_expected_window_size(&config("inf%", "-inf%"), &out), (u32::MAX, 0));
    assert_eq!(calculate_expected_window_size(&config("nan%", "1e-400%"), &out), (0, 0));
    assert_eq!(calculate_expected_window_size(&config("1e20%", "-5e1%"), &out), (u32::MAX, 0));
    // not a number: the whole side
    assert_eq!(calculate_expected_window_size(&config("e%", "1ee1%"), &out), (1920, 1080));
}
