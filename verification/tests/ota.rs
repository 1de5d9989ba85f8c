use xwiki::api::error_from_response;
use xwiki::ota::{format_ota_version, ota_failure, ota_status, parse_ota_version};

#[test]
fn release_tags_read_as_versions() {
    assert_eq!(parse_ota_version("v1.2.3"), Some((1, 2, 3)));
    assert_eq!(parse_ota_version("app-v0.10.2-rc1"), Some((0, 10, 2)));
    assert_eq!(parse_ota_version("2.0.1.7"), Some((2, 0, 1)));
    assert_eq!(parse_ota_version("v1.2"), None);
    assert_eq!(parse_ota_version("v1.x.3"), None);
    assert_eq!(format_ota_version((1, 20, 3)), "v1.20.3");
}

#[test]
fn formatted_versions_read_back() {
    for v in [(0, 0, 0), (1, 2, 3), (4294967295, 10, 0)] {
        assert_eq!(parse_ota_version(&format_ota_version(v)), Some(v));
    }
}

#[test]
fn update_check_reports() {
    assert_eq!(
        ota_status("0.1.0", "v0.2.0", "https://x/r"),
        (true, "发现新版本 v0.2.0 · https://x/r".to_string())
    );
    assert_eq!(
        ota_status("0.2.0", "v0.1.9", "https://x/r"),
        (true, "当前已是最新版本 v0.2.0 · GitHub Releases".to_string())
    );
    assert_eq!(
        ota_status("0.2.0", "nightly", "u"),
        (false, "无法识别 GitHub Release 版本号：nightly".to_string())
    );
    assert_eq!(
        ota_failure(&error_from_response(429, None)),
        (false, "检查 GitHub Releases 失败：GitHub API 请求受限，请稍后重试。".to_string())
    );
}
