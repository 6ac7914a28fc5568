use dragalia_cdn::grammar::{parse_asset, parse_manifest, validate, Kind, Locale, Platform};

const HASH: &str = "ABCDEFGHIJKLMNOPQRSTUVWXYZ234567ABCDEFGHIJKLMNOPQRST";

fn asset_path(platform: &str, middle: &str, last: &str) -> String {
    format!("{}/{}/{}", platform, middle, last)
}

#[test]
fn asset_path_parses_into_prefix_and_hash() {
    assert_eq!(HASH.len(), 52);
    let p = asset_path("Android", "x", &format!("AA{}", HASH));
    let a = parse_asset(&p).expect("valid asset path");
    assert_eq!(a.platform, Platform::Android);
    assert_eq!(a.prefix, "AA");
    assert_eq!(a.hash, HASH);
}

#[test]
fn asset_path_on_ios_with_deep_middle() {
    let p = asset_path("iOS", "a/b/2A", &format!("7={}", HASH));
    let a = parse_asset(&p).expect("valid asset path");
    assert_eq!(a.platform, Platform::Ios);
    assert_eq!(a.prefix, "7=");
    assert_eq!(a.hash, HASH);
}

#[test]
fn unknown_platform_is_rejected_by_both_grammars() {
    for tag in ["Windows", "android", "IOS", "", "Androidx"] {
        let a = asset_path(tag, "x", &format!("AA{}", HASH));
        assert!(parse_asset(&a).is_none(), "{}", tag);
        let m = format!("{}/abc/assetbundle.manifest", tag);
        assert!(parse_manifest(&m).is_none(), "{}", tag);
    }
}

#[test]
fn hash_with_char_outside_alphabet_is_rejected() {
    for bad in ['a', '1', '8', '0', '-', '_', 'z', '/'] {
        let mut last = format!("AA{}", HASH);
        last.replace_range(10..11, &bad.to_string());
        assert!(parse_asset(&asset_path("Android", "x", &last)).is_none(), "{}", bad);
    }
    let lower = format!("aa{}", HASH);
    assert!(parse_asset(&asset_path("Android", "x", &lower)).is_none());
}

#[test]
fn last_segment_must_be_exactly_54_chars() {
    let short = format!("A{}", HASH);
    assert!(parse_asset(&asset_path("Android", "x", &short)).is_none());
    let long = format!("AAA{}", HASH);
    assert!(parse_asset(&asset_path("Android", "x", &long)).is_none());
    let split = format!("Android/x/AA/{}", HASH);
    assert!(parse_asset(&split).is_none());
}

#[test]
fn middle_segment_must_not_be_empty() {
    let p = format!("Android//AA{}", HASH);
    assert!(parse_asset(&p).is_none());
    let q = format!("Android/AA{}", HASH);
    assert!(parse_asset(&q).is_none());
}

#[test]
fn manifest_without_locale() {
    let m = parse_manifest("Android/y2XM6giU6zz56wCm/assetbundle.manifest").expect("valid");
    assert_eq!(m.platform, Platform::Android);
    assert_eq!(m.id, "y2XM6giU6zz56wCm");
    assert_eq!(m.locale, None);
    assert_eq!(m.filename(), "assetbundle.manifest");
}

#[test]
fn manifest_with_each_locale() {
    let cases = [
        ("en_us", Locale::EnUs),
        ("en_eu", Locale::EnEu),
        ("zh_cn", Locale::ZhCn),
        ("zh_tw", Locale::ZhTw),
    ];
    for (tag, locale) in cases {
        let path = format!("iOS/b1HyoeTFegeTexC0/assetbundle.{}.manifest", tag);
        let m = parse_manifest(&path).expect("valid");
        assert_eq!(m.platform, Platform::Ios);
        assert_eq!(m.id, "b1HyoeTFegeTexC0");
        assert_eq!(m.locale, Some(locale));
        assert_eq!(m.filename(), format!("assetbundle.{}.manifest", tag));
    }
}

#[test]
fn manifest_id_longer_than_16_is_rejected() {
    assert!(parse_manifest("Android/abcdefghijklmnop/assetbundle.manifest").is_some());
    assert!(parse_manifest("Android/abcdefghijklmnopq/assetbundle.manifest").is_none());
    assert!(parse_manifest("Android/A1234567890123456789/assetbundle.en_us.manifest").is_none());
}

#[test]
fn manifest_id_must_be_alphanumeric_and_non_empty() {
    assert!(parse_manifest("Android//assetbundle.manifest").is_none());
    assert!(parse_manifest("Android/ab_c/assetbundle.manifest").is_none());
    assert!(parse_manifest("Android/a/b/assetbundle.manifest").is_none());
    assert!(parse_manifest("Android/a9Z/assetbundle.manifest").is_some());
}

#[test]
fn manifest_unknown_locale_is_rejected() {
    for tag in ["fr_fr", "EN_US", "en_u", "en_usa", "", "ja_jp"] {
        let path = format!("Android/abc/assetbundle.{}.manifest", tag);
        assert!(parse_manifest(&path).is_none(), "{}", tag);
    }
    assert!(parse_manifest("Android/abc/assetbundle.manifest").is_some());
    assert!(parse_manifest("Android/abc/Assetbundle.manifest").is_none());
    assert!(parse_manifest("Android/abc/assetbundle.manifest2").is_none());
}

#[test]
fn validate_gives_directory_and_file() {
    let p = asset_path("Android", "x", &format!("AA{}", HASH));
    let f = validate(Kind::Asset, &p).expect("valid");
    assert_eq!(f.dir, "AA");
    assert_eq!(f.file, HASH);
    let m = validate(Kind::Manifest, "iOS/abc/assetbundle.zh_cn.manifest").expect("valid");
    assert_eq!(m.dir, "abc");
    assert_eq!(m.file, "assetbundle.zh_cn.manifest");
    assert!(validate(Kind::Manifest, &p).is_none());
    assert!(validate(Kind::Asset, "iOS/abc/assetbundle.zh_cn.manifest").is_none());
}
