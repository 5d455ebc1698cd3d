use dystellar_launcher::config::{Config, ConfigError, Size, SizeError};
use dystellar_launcher::json::{parse_json, Json};
use dystellar_launcher::text::{parse_i32, trim};

#[test]
fn size_parses_width_and_height() {
    let s = Size::from_str("854x480").unwrap();
    assert_eq!((s.x, s.y), (854, 480));
}

#[test]
fn size_trims_each_side() {
    let s = Size::from_str(" 1920 x\t1080 ").unwrap();
    assert_eq!((s.x, s.y), (1920, 1080));
}

#[test]
fn size_accepts_signs() {
    let s = Size::from_str("-5x+7").unwrap();
    assert_eq!((s.x, s.y), (-5, 7));
    let s = Size::from_str("-2147483648x2147483647").unwrap();
    assert_eq!((s.x, s.y), (i32::MIN, i32::MAX));
}

#[test]
fn size_refuses_wrong_shapes() {
    assert_eq!(Size::from_str("800").unwrap_err(), SizeError::Format);
    assert_eq!(Size::from_str("1x2x3").unwrap_err(), SizeError::Format);
    assert_eq!(Size::from_str("").unwrap_err(), SizeError::Format);
    assert_eq!(Size::from_str("axb").unwrap_err(), SizeError::InvalidX);
    assert_eq!(Size::from_str("x5").unwrap_err(), SizeError::InvalidX);
    assert_eq!(Size::from_str("10xb").unwrap_err(), SizeError::InvalidY);
    assert_eq!(Size::from_str("2147483648x1").unwrap_err(), SizeError::InvalidX);
    assert_eq!(Size::from_str("1x-2147483649").unwrap_err(), SizeError::InvalidY);
    assert_eq!(Size::from_str("+x1").unwrap_err(), SizeError::InvalidX);
}

#[test]
fn size_error_messages() {
    assert_eq!(SizeError::Format.message(), "expected 'XxY' format");
    assert_eq!(SizeError::InvalidX.message(), "invalid x");
    assert_eq!(SizeError::InvalidY.message(), "invalid y");
}

#[test]
fn size_text_reads_back() {
    for (x, y) in [(0, 0), (854, 480), (-1, i32::MAX), (i32::MIN, -42)] {
        let s = Size { x, y };
        let t = s.to_text();
        let back = Size::from_str(&t).unwrap();
        assert_eq!((back.x, back.y), (x, y));
    }
    assert_eq!(Size { x: -3, y: 40 }.to_text(), "-3x40");
}

#[test]
fn parse_i32_matches_std() {
    for s in ["0", "-0", "+12", "007", "2147483647", "-2147483648", "2147483648", "", "-", "+", "1 ", " 1", "12a", "99999999999999"] {
        assert_eq!(parse_i32(s), s.parse::<i32>().ok(), "input {:?}", s);
    }
}

#[test]
fn trim_matches_std() {
    for s in ["", "  ", " a ", "\u{3000}b\u{2028}", "a b", "\t\n x \r"] {
        assert_eq!(trim(s), s.trim());
    }
}

#[test]
fn default_config_follows_the_readme() {
    let c = Config::default("/home/u/.local/share/dystellarlauncher", "/home/u/.cache/dystellarlauncher");
    assert_eq!(c.ram_allocation_mb, 3072);
    assert_eq!((c.resolution.x, c.resolution.y), (854, 480));
    assert!(!c.fullscreen);
    assert_eq!(c.branch, "master");
    assert_eq!(c.jvm_args, "");
    assert!(!c.close_on_launch);
    assert_eq!(c.game_dir, "/home/u/.local/share/dystellarlauncher/dystellar");
    assert_eq!(c.cache_dir, "/home/u/.cache/dystellarlauncher/dyst");
    assert_eq!(c.jdk_dir, "/home/u/.local/share/dystellarlauncher/jdk");
}

#[test]
fn project_names_follow_the_readme() {
    assert_eq!(dystellar_launcher::dirs::project_names(), ("org.dystellar", "mmorpg", "DystellarLauncher"));
}

#[test]
fn default_config_written_on_first_run_loads_back() {
    let d = Config::default("/data", "/cache");
    let back = Config::load(&d.to_json_text()).unwrap();
    assert!(same(&d, &back));
}

fn sample() -> Config {
    Config {
        ram_allocation_mb: -12,
        resolution: Size { x: 1280, y: 720 },
        fullscreen: true,
        branch: "dev".to_string(),
        jvm_args: "-XX:+UseG1GC  -Dfoo=bar".to_string(),
        close_on_launch: true,
        game_dir: "/g".to_string(),
        cache_dir: "/c".to_string(),
        jdk_dir: "/j".to_string(),
    }
}

fn same(a: &Config, b: &Config) -> bool {
    a.ram_allocation_mb == b.ram_allocation_mb
        && a.resolution == b.resolution
        && a.fullscreen == b.fullscreen
        && a.branch == b.branch
        && a.jvm_args == b.jvm_args
        && a.close_on_launch == b.close_on_launch
        && a.game_dir == b.game_dir
        && a.cache_dir == b.cache_dir
        && a.jdk_dir == b.jdk_dir
}

#[test]
fn config_json_roundtrip() {
    let c = sample();
    let back = Config::from_json(&c.to_json()).unwrap();
    assert!(same(&c, &back));
}

#[test]
fn config_text_roundtrip() {
    let c = sample();
    let text = c.to_json_text();
    assert!(text.contains("\"resolution\": \"1280x720\""));
    let back = Config::load(&text).unwrap();
    assert!(same(&c, &back));
}

#[test]
fn config_load_errors() {
    assert_eq!(Config::load("{ not json").unwrap_err(), ConfigError::Syntax);
    let good = sample().to_json_text();
    let no_ram = good.replace("\"ram_allocation_mb\"", "\"ram\"");
    assert_eq!(Config::load(&no_ram).unwrap_err(), ConfigError::WrongType);
    let bad_res = good.replace("1280x720", "1280*720");
    assert_eq!(Config::load(&bad_res).unwrap_err(), ConfigError::Resolution(SizeError::Format));
    let bad_type = good.replace("\"fullscreen\": true", "\"fullscreen\": \"yes\"");
    assert_eq!(Config::load(&bad_type).unwrap_err(), ConfigError::WrongType);
    let float_ram = good.replace("-12", "3.5");
    assert_eq!(Config::load(&float_ram).unwrap_err(), ConfigError::WrongType);
}

#[test]
fn config_first_missing_member_decides() {
    // ram missing and resolution malformed: the ram error comes first.
    let j = parse_json(r#"{"resolution": "bad"}"#).unwrap();
    assert_eq!(Config::from_json(&j).unwrap_err(), ConfigError::WrongType);
    let j = parse_json(r#"{"ram_allocation_mb": 1, "resolution": "bad"}"#).unwrap();
    assert_eq!(Config::from_json(&j).unwrap_err(), ConfigError::Resolution(SizeError::Format));
    assert_eq!(Config::from_json(&Json::Null).unwrap_err(), ConfigError::WrongType);
}
