use rbxlx2vmf::config::{
    parse_clearance, parse_decal_size, parse_map_scale, skybox_for_game, ConfigError,
    ConversionConfig, Options,
};

fn options<'a>(map_scale: &'a str, decal_size: &'a str) -> Options<'a> {
    Options {
        map_scale,
        decal_size,
        skybox_height: None,
        game: "tf2",
        texture_output: true,
        developer_textures: false,
        optimize: true,
        auto_skybox: false,
        web_origin: "",
    }
}

#[test]
fn every_game_has_its_sky() {
    let table = [
        ("css", "sky_day01_05"),
        ("csgo", "sky_day02_05"),
        ("gmod", "painted"),
        ("hl2", "sky_day01_04"),
        ("hl2e1", "sky_ep01_01"),
        ("hl2e2", "sky_ep02_01_hdr"),
        ("hl", "city"),
        ("hls", "sky_wasteland02"),
        ("l4d", "river_hdr"),
        ("l4d2", "sky_l4d_c1_2_hdr"),
        ("portal2", "sky_day01_01"),
        ("portal", "sky_day01_05_hdr"),
        ("tf2", "sky_day01_01"),
    ];
    for (game, sky) in table {
        assert_eq!(skybox_for_game(game), sky);
    }
    for game in ["", "TF2", "tf", "tf22", "hl3", " css"] {
        assert_eq!(skybox_for_game(game), "default_skybox_fixme");
    }
}

#[test]
fn numbers_of_the_command_line() {
    assert_eq!(parse_map_scale("15"), Some(15000));
    assert_eq!(parse_map_scale("12.5"), Some(12500));
    assert_eq!(parse_map_scale("0"), Some(0));
    assert_eq!(parse_map_scale("4294967.295"), Some(u32::MAX));
    assert_eq!(parse_map_scale("4294967.296"), None);
    assert_eq!(parse_map_scale("-1"), None);
    assert_eq!(parse_map_scale("fifteen"), None);
    assert_eq!(parse_map_scale(""), None);
    assert_eq!(parse_decal_size("256"), Some(256));
    assert_eq!(parse_decal_size("256px"), None);
    assert_eq!(parse_decal_size("-256"), None);
    assert_eq!(parse_decal_size("2.5"), None);
    assert_eq!(parse_clearance(None), 0);
    assert_eq!(parse_clearance(Some("10")), 10000);
    assert_eq!(parse_clearance(Some("0.5")), 500);
    assert_eq!(parse_clearance(Some("-3")), 0);
    assert_eq!(parse_clearance(Some("high")), 0);
}

#[test]
fn settings_from_options() {
    let config = ConversionConfig::from_options(&options("15", "256")).unwrap();
    assert_eq!(config.map_scale, 15000);
    assert_eq!(config.decal_size, 256);
    assert!(config.texture_output);
    assert!(!config.developer_textures);
    assert!(config.optimize);
    assert!(!config.auto_skybox);
    assert_eq!(config.skybox_clearance, 0);
    assert_eq!(config.skybox_name, "sky_day01_01");
    assert!(!config.remote_fetch);
    let mut o = options("7.25", "512");
    o.skybox_height = Some("32");
    o.web_origin = "https://example.org";
    o.game = "hl";
    o.auto_skybox = true;
    o.developer_textures = true;
    o.texture_output = false;
    o.optimize = false;
    let config = ConversionConfig::from_options(&o).unwrap();
    assert_eq!(config.map_scale, 7250);
    assert_eq!(config.decal_size, 512);
    assert_eq!(config.skybox_clearance, 32000);
    assert_eq!(config.skybox_name, "city");
    assert!(config.remote_fetch);
    assert!(config.auto_skybox && config.developer_textures);
    assert!(!config.texture_output && !config.optimize);
}

#[test]
fn settings_that_are_refused() {
    assert_eq!(
        ConversionConfig::from_options(&options("x", "256")).err(),
        Some(ConfigError::InvalidMapScale)
    );
    assert_eq!(
        ConversionConfig::from_options(&options("15", "x")).err(),
        Some(ConfigError::InvalidDecalSize)
    );
    assert_eq!(
        ConversionConfig::from_options(&options("x", "x")).err(),
        Some(ConfigError::InvalidMapScale)
    );
}
