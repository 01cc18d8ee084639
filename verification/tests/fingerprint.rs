use mdcrawl::fingerprint::{
    browser_configs, to_one_decimal, to_signed_decimal, BrowserFingerprint, Draw, FingerprintCache,
};

fn draw() -> Draw {
    Draw {
        viewport: (1366, 768),
        color_depth: 24,
        pixel_ratio: 225,
        timezone_offset: -300,
        hardware_concurrency: 8,
        memory_gb: 16,
        webgl_vendor: "vendor",
        webgl_renderer: "renderer",
        language: "de-DE",
        with_english: true,
        architecture: "x86_64",
        platform_version: "12_3_0",
        connection_type: "wifi",
    }
}

fn s(v: &Vec<char>) -> String {
    v.iter().collect()
}

fn pairs(list: &[(&str, &str)]) -> Vec<(String, String)> {
    list.iter().map(|(n, v)| (n.to_string(), v.to_string())).collect()
}

#[test]
fn there_are_three_browsers() {
    let configs = browser_configs();
    let names: Vec<&str> = configs.iter().map(|c| c.name).collect();
    assert_eq!(names, vec!["Chrome", "Firefox", "Safari"]);
    assert_eq!(configs[0].brand_version, "90.0.6099.109");
    assert_eq!(configs[2].platform, "Macintosh");
    assert_eq!((configs[2].min_version, configs[2].max_version), (15, 17));
}

#[test]
fn user_agents_follow_the_browser() {
    let configs = browser_configs();
    let chrome = BrowserFingerprint::assemble(&configs[0], draw());
    assert_eq!(
        chrome.user_agent,
        "Mozilla/5.0 (Windows NT 12_3_0; Win64; x64) Blink Chrome/ 90 Safari/537.36"
    );
    let firefox = BrowserFingerprint::assemble(&configs[1], draw());
    assert_eq!(
        firefox.user_agent,
        "Mozilla/5.0 (Windows NT 12_3_0; Win64; x64) Gecko/90.0 Firefox/90"
    );
    let safari = BrowserFingerprint::assemble(&configs[2], draw());
    assert_eq!(
        safari.user_agent,
        "Mozilla/5.0 (Macintosh; Intel Mac OS X 12_3_0) AppleWebKit/605.1.15 (KHTML, like Gecko) Version/15 Safari/605.1.15"
    );
}

#[test]
fn assembled_profile_is_consistent() {
    let configs = browser_configs();
    let fp = BrowserFingerprint::assemble(&configs[2], draw());
    assert_eq!(fp.platform, "Macintosh");
    assert_eq!(fp.bitness, "32");
    assert_eq!(fp.browser_version, "15.17");
    assert_eq!(fp.accept_language, "de-DE");
    assert_eq!(fp.preferred_languages, vec!["de-DE", "en-US,en;q=0.9"]);
    assert!(!fp.mobile);
    assert_eq!(
        fp.headers,
        pairs(&[
            ("User-Agent", fp.user_agent.as_str()),
            ("Accept-Language", "de-DE"),
            ("Accept", "text/html,application/xhtml+xml,application/xml;q=0.9,image/avif,image/webp,*/*;q=0.8"),
            ("Accept-Encoding", "gzip, deflate, br"),
            ("Connection", "keep-alive"),
            ("Viewport-Width", "1366"),
            ("DPR", "2.2"),
            ("Device-Memory", "16"),
            ("RTT", "50"),
            ("Downlink", "10.0"),
            ("ECT", "wifi"),
        ])
    );
    let windows = BrowserFingerprint::assemble(&configs[0], draw());
    assert_eq!(windows.bitness, "64");
}

#[test]
fn chrome_sends_client_hints() {
    let configs = browser_configs();
    let fp = BrowserFingerprint::assemble(&configs[0], draw());
    assert_eq!(fp.headers.len(), 21);
    assert_eq!(
        fp.headers[5..15].to_vec(),
        pairs(&[
            ("Sec-CH-UA", "90.0.6099.109"),
            ("Sec-CH-UA-Mobile", "?0"),
            ("Sec-CH-UA-Platform", "\"Windows\""),
            ("Sec-CH-UA-Arch", "\"x86_64\""),
            ("Sec-CH-UA-Bitness", "\"64\""),
            ("Sec-CH-UA-Full-Version-List", "90.0.6099.109"),
            ("Device-Memory", "16"),
            ("Sec-CH-UA-Model", ""),
            ("Color-Depth", "24"),
            ("Hardware-Concurrency", "8"),
        ])
    );
}

#[test]
fn request_headers_start_with_the_hints_and_end_with_the_profile_headers() {
    let configs = browser_configs();
    let fp = BrowserFingerprint::assemble(&configs[1], draw());
    let headers = fp.request_headers();
    assert_eq!(headers.len(), 20 + fp.headers.len());
    assert_eq!(
        headers[..20].to_vec(),
        pairs(&[
            ("User-Agent", fp.user_agent.as_str()),
            ("Accept-Language", "de-DE"),
            ("Sec-CH-UA-Platform-Version", "12_3_0"),
            ("Sec-CH-UA-Model", ""),
            ("Sec-CH-UA-Mobile", "?0"),
            ("Viewport-Width", "1366"),
            ("Width", "1366"),
            ("Device-Memory", "16"),
            ("Sec-CH-UA-Full-Version", "90.119"),
            ("Sec-CH-UA-WebGL-Vendor", "vendor"),
            ("Sec-CH-UA-WebGL-Renderer", "renderer"),
            ("Sec-CH-UA-Arch", "x86_64"),
            ("Sec-CH-UA-Bitness", "64"),
            ("Downlink", "10.0"),
            ("ECT", "wifi"),
            ("RTT", "50"),
            ("Color-Depth", "24"),
            ("Hardware-Concurrency", "8"),
            ("Time-Zone", "-300"),
            ("Accept-Language", "de-DE,en-US,en;q=0.9"),
        ])
    );
    assert_eq!(headers[20..].to_vec(), fp.headers);
}

#[test]
fn ratios_are_written_with_one_decimal() {
    assert_eq!(s(&to_one_decimal(100)), "1.0");
    assert_eq!(s(&to_one_decimal(150)), "1.5");
    assert_eq!(s(&to_one_decimal(200)), "2.0");
    assert_eq!(s(&to_one_decimal(225)), "2.2");
    assert_eq!(s(&to_one_decimal(235)), "2.4");
    assert_eq!(s(&to_one_decimal(300)), "3.0");
    assert_eq!(s(&to_one_decimal(999)), "10.0");
    assert_eq!(s(&to_one_decimal(4)), "0.0");
    assert_eq!(s(&to_one_decimal(u32::MAX)), "42949673.0");
}

#[test]
fn offsets_are_written_with_their_sign() {
    assert_eq!(s(&to_signed_decimal(-480)), "-480");
    assert_eq!(s(&to_signed_decimal(0)), "0");
    assert_eq!(s(&to_signed_decimal(600)), "600");
    assert_eq!(s(&to_signed_decimal(i32::MIN)), "-2147483648");
}

#[test]
fn generated_profiles_are_drawn_from_the_tables() {
    for seed in 0..200u64 {
        let fp = BrowserFingerprint::generate(seed);
        assert!([(1920, 1080), (1366, 768), (1536, 864), (1440, 900), (1280, 720)]
            .contains(&fp.viewport));
        assert!([24, 32].contains(&fp.color_depth));
        assert!([100, 150, 200, 225, 300].contains(&fp.pixel_ratio));
        assert!([2, 4, 6, 8, 12, 16].contains(&fp.hardware_concurrency));
        assert!([4, 8, 16, 32].contains(&fp.memory_gb));
        assert!(["Windows", "Macintosh"].contains(&fp.platform.as_str()));
        assert!(fp.user_agent.starts_with("Mozilla/5.0 ("));
        assert_eq!(fp.headers[0], ("User-Agent".to_string(), fp.user_agent.clone()));
        assert_eq!(fp.accept_language, fp.preferred_languages[0]);
        assert_eq!(fp.bitness == "64", fp.platform == "Windows");
    }
}

#[test]
fn generation_draws_different_profiles() {
    let agents: std::collections::HashSet<String> =
        (0..200u64).map(|seed| BrowserFingerprint::generate(seed).user_agent).collect();
    assert!(agents.len() > 1);
}

#[test]
fn one_seed_gives_one_profile() {
    let a = BrowserFingerprint::generate(42);
    let b = BrowserFingerprint::generate(42);
    assert_eq!(a.request_headers(), b.request_headers());
}

#[test]
fn copy_of_a_profile_carries_the_same_headers() {
    let fp = BrowserFingerprint::generate(7);
    assert_eq!(fp.duplicate().request_headers(), fp.request_headers());
}

#[test]
fn cache_holds_a_profile_for_each_seed_and_hands_profiles_out() {
    let cache = FingerprintCache::new(&vec![1, 2, 3, 4, 5, 6, 7, 8, 9, 10]);
    assert_eq!(cache.fingerprints.len(), 10);
    for seed in 0..50u64 {
        let fp = cache.get_random(seed, seed + 1000);
        assert!(fp.user_agent.starts_with("Mozilla/5.0 ("));
    }
}
