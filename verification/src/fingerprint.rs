//! Browser profiles: the headers with which a fetch looks like a visit from
//! one browser on one machine.
//!
//! A profile is drawn at random from fixed lists; what is drawn is then put
//! together by rule, so that the user agent, the language and the hints on
//! screen, memory and processor all speak of the same browser.

use crate::text::{decimal, digit, push_chars, push_str, str_eq, to_decimal, to_string};
use rand::seq::SliceRandom;
use rand::{Rng, SeedableRng};
use vstd::prelude::*;

verus! {

/// A browser that profiles are made for.
#[derive(Debug)]
pub struct BrowserVersion {
    pub name: &'static str,
    pub version_prefix: &'static str,
    pub min_version: u32,
    pub max_version: u32,
    pub platform: &'static str,
    pub engine: &'static str,
    pub engine_version: &'static str,
    pub brand_version: String,
}

/// A profile.
#[derive(Debug)]
pub struct BrowserFingerprint {
    pub user_agent: String,
    pub accept_language: String,
    pub platform: String,
    pub viewport: (u32, u32),
    pub color_depth: u32,
    /// The ratio of device pixels to CSS pixels, in hundredths.
    pub pixel_ratio: u32,
    /// The offset of the time zone, in minutes.
    pub timezone_offset: i32,
    pub hardware_concurrency: u8,
    pub memory_gb: u8,
    pub webgl_vendor: String,
    pub webgl_renderer: String,
    pub architecture: &'static str,
    pub bitness: &'static str,
    pub platform_version: String,
    pub browser_version: String,
    pub mobile: bool,
    pub headers: Vec<(String, String)>,
    pub connection_type: &'static str,
    pub preferred_languages: Vec<String>,
}

/// Makes the generator `rand::rngs::SmallRng` known. Nothing is said of its
/// state.
#[verifier::external_type_specification]
#[verifier::external_body]
pub struct ExSmallRng(rand::rngs::SmallRng);

/// Calls `SmallRng::seed_from_u64`, which makes a generator from a seed.
#[verifier::external_body]
fn rng_from_seed(seed: u64) -> rand::rngs::SmallRng {
    rand::rngs::SmallRng::seed_from_u64(seed)
}

/// Calls `SliceRandom::choose` on the items, which gives one of them; there
/// has to be one.
#[verifier::external_body]
fn pick<'a, T>(items: &'a Vec<T>, rng: &mut rand::rngs::SmallRng) -> (chosen: &'a T)
    requires
        items.len() > 0,
    ensures
        items@.contains(*chosen),
{
    items.choose(rng).unwrap()
}

/// Calls `Rng::gen_ratio`, which is true with the chance of `numerator` in
/// `denominator`: always where the two are equal, never where the numerator
/// is 0.
#[verifier::external_body]
fn chance(rng: &mut rand::rngs::SmallRng, numerator: u32, denominator: u32) -> (hit: bool)
    requires
        0 < denominator,
        numerator <= denominator,
    ensures
        numerator == denominator ==> hit,
        numerator == 0 ==> !hit,
{
    rng.gen_ratio(numerator, denominator)
}

/// `n` in decimal notation, with a minus sign where it is negative.
pub open spec fn signed_decimal(n: int) -> Seq<char> {
    if n < 0 {
        seq!['-'] + decimal((-n) as nat)
    } else {
        decimal(n as nat)
    }
}

/// A number given in hundredths, written with one decimal; a half is rounded
/// to the even neighbour.
pub open spec fn one_decimal(hundredths: nat) -> Seq<char> {
    let tenths = hundredths / 10;
    let rest = hundredths % 10;
    let rounded = if rest > 5 || (rest == 5 && tenths % 2 == 1) {
        tenths + 1
    } else {
        tenths
    };
    decimal(rounded / 10) + seq!['.', digit(rounded % 10)]
}

/// The operating system as the user agent names it.
pub open spec fn system_text(platform: Seq<char>, platform_version: Seq<char>) -> Seq<char> {
    if platform == "Windows"@ {
        "Windows NT "@ + platform_version + "; Win64; x64"@
    } else {
        "Macintosh; Intel Mac OS X "@ + platform_version
    }
}

/// Whether profiles can be made for a browser of this name.
pub open spec fn is_known_browser(name: Seq<char>) -> bool {
    name == "Chrome"@ || name == "Firefox"@ || name == "Safari"@
}

/// The user agent of `browser` on the given platform.
pub open spec fn user_agent_text(
    browser: BrowserVersion,
    platform: Seq<char>,
    platform_version: Seq<char>,
) -> Seq<char> {
    let system = system_text(platform, platform_version);
    if browser.name@ == "Chrome"@ {
        "Mozilla/5.0 ("@ + system + ") "@ + browser.engine@ + " "@ + browser.version_prefix@ + " "@
            + decimal(browser.min_version as nat) + " Safari/537.36"@
    } else if browser.name@ == "Firefox"@ {
        "Mozilla/5.0 ("@ + system + ") Gecko/"@ + browser.engine_version@ + " Firefox/"@ + decimal(
            browser.min_version as nat,
        )
    } else {
        "Mozilla/5.0 ("@ + system + ") AppleWebKit/605.1.15 (KHTML, like Gecko) Version/"@
            + decimal(browser.min_version as nat) + " Safari/605.1.15"@
    }
}

/// The client hints that only Chrome sends.
pub open spec fn chrome_headers(fp: BrowserFingerprint, browser: BrowserVersion) -> Seq<
    (Seq<char>, Seq<char>),
> {
    seq![
        ("Sec-CH-UA"@, browser.brand_version@),
        ("Sec-CH-UA-Mobile"@, "?0"@),
        ("Sec-CH-UA-Platform"@, "\""@ + fp.platform@ + "\""@),
        ("Sec-CH-UA-Arch"@, "\""@ + fp.architecture@ + "\""@),
        ("Sec-CH-UA-Bitness"@, "\""@ + fp.bitness@ + "\""@),
        ("Sec-CH-UA-Full-Version-List"@, browser.brand_version@),
        ("Device-Memory"@, decimal(fp.memory_gb as nat)),
        ("Sec-CH-UA-Model"@, ""@),
        ("Color-Depth"@, decimal(fp.color_depth as nat)),
        ("Hardware-Concurrency"@, decimal(fp.hardware_concurrency as nat)),
    ]
}

/// The headers of the profile `fp` of `browser`, in order.
pub open spec fn profile_headers(fp: BrowserFingerprint, browser: BrowserVersion) -> Seq<
    (Seq<char>, Seq<char>),
> {
    seq![
        ("User-Agent"@, fp.user_agent@),
        ("Accept-Language"@, fp.accept_language@),
        (
            "Accept"@,
            "text/html,application/xhtml+xml,application/xml;q=0.9,image/avif,image/webp,*/*;q=0.8"@,
        ),
        ("Accept-Encoding"@, "gzip, deflate, br"@),
        ("Connection"@, "keep-alive"@),
    ] + (if browser.name@ == "Chrome"@ {
        chrome_headers(fp, browser)
    } else {
        Seq::empty()
    }) + seq![
        ("Viewport-Width"@, decimal(fp.viewport.0 as nat)),
        ("DPR"@, one_decimal(fp.pixel_ratio as nat)),
        ("Device-Memory"@, decimal(fp.memory_gb as nat)),
        ("RTT"@, "50"@),
        ("Downlink"@, "10.0"@),
        ("ECT"@, fp.connection_type@),
    ]
}

/// Whether `fp` is a profile of `browser`: its user agent is that of the
/// browser on the platform and version that the profile names, its platform
/// is the browser's, and its headers are those that follow from the rest.
pub open spec fn is_profile(fp: BrowserFingerprint, browser: BrowserVersion) -> bool {
    &&& fp.user_agent@ == user_agent_text(browser, fp.platform@, fp.platform_version@)
    &&& fp.platform@ == browser.platform@
    &&& fp.bitness@ == if browser.platform@ == "Windows"@ {
        "64"@
    } else {
        "32"@
    }
    &&& fp.browser_version@ == decimal(browser.min_version as nat) + seq!['.'] + decimal(
        browser.max_version as nat,
    )
    &&& !fp.mobile
    &&& fp.preferred_languages.len() >= 1
    &&& fp.accept_language@ == fp.preferred_languages[0]@
    &&& fp.headers.deep_view() == profile_headers(fp, browser)
}

/// Whether `fp` is a profile of some browser that profiles are made for.
pub open spec fn is_some_profile(fp: BrowserFingerprint) -> bool {
    exists|browser: BrowserVersion|
        is_known_browser(browser.name@) && #[trigger] is_profile(fp, browser)
}

/// What is drawn for one profile.
#[derive(Debug)]
pub struct Draw {
    pub viewport: (u32, u32),
    pub color_depth: u32,
    pub pixel_ratio: u32,
    pub timezone_offset: i32,
    pub hardware_concurrency: u8,
    pub memory_gb: u8,
    pub webgl_vendor: &'static str,
    pub webgl_renderer: &'static str,
    pub language: &'static str,
    /// Whether English joins the preferred languages.
    pub with_english: bool,
    pub architecture: &'static str,
    pub platform_version: &'static str,
    pub connection_type: &'static str,
}

/// Whether `fp` holds what `draw` holds.
pub open spec fn holds_draw(fp: BrowserFingerprint, draw: Draw) -> bool {
    &&& fp.viewport == draw.viewport
    &&& fp.color_depth == draw.color_depth
    &&& fp.pixel_ratio == draw.pixel_ratio
    &&& fp.timezone_offset == draw.timezone_offset
    &&& fp.hardware_concurrency == draw.hardware_concurrency
    &&& fp.memory_gb == draw.memory_gb
    &&& fp.webgl_vendor@ == draw.webgl_vendor@
    &&& fp.webgl_renderer@ == draw.webgl_renderer@
    &&& fp.architecture@ == draw.architecture@
    &&& fp.platform_version@ == draw.platform_version@
    &&& fp.connection_type@ == draw.connection_type@
    &&& fp.preferred_languages.deep_view() == if draw.with_english {
        seq![draw.language@, "en-US,en;q=0.9"@]
    } else {
        seq![draw.language@]
    }
}

/// `n` in decimal notation, with its sign.
pub fn to_signed_decimal(n: i32) -> (v: Vec<char>)
    ensures
        v@ == signed_decimal(n as int),
{
    if n < 0 {
        let m: i64 = -(n as i64);
        let mut v: Vec<char> = Vec::new();
        v.push('-');
        let digits = to_decimal(m as u64);
        push_chars(&mut v, &digits);
        v
    } else {
        to_decimal(n as u64)
    }
}

/// A number given in hundredths, written with one decimal.
pub fn to_one_decimal(hundredths: u32) -> (v: Vec<char>)
    ensures
        v@ == one_decimal(hundredths as nat),
{
    let tenths: u32 = hundredths / 10;
    let rest: u32 = hundredths % 10;
    let rounded: u32 = if rest > 5 || (rest == 5 && tenths % 2 == 1) {
        tenths + 1
    } else {
        tenths
    };
    let mut v = to_decimal((rounded / 10) as u64);
    v.push('.');
    let last = to_decimal((rounded % 10) as u64);
    assert(last@ == seq![digit((rounded % 10) as nat)]);
    v.push(last[0]);
    v
}

/// A header with the given name and value.
fn header(name: &str, value: &Vec<char>) -> (pair: (String, String))
    ensures
        pair.deep_view() == (name@, value@),
{
    (name.to_owned(), to_string(value))
}

/// A header whose value is the text `value`.
fn text_header(name: &str, value: &str) -> (pair: (String, String))
    ensures
        pair.deep_view() == (name@, value@),
{
    (name.to_owned(), value.to_owned())
}

/// The text `value` in double quotes.
fn quoted(value: &str) -> (v: Vec<char>)
    ensures
        v@ == "\""@ + value@ + "\""@,
{
    let mut v: Vec<char> = Vec::new();
    push_str(&mut v, "\"");
    push_str(&mut v, value);
    push_str(&mut v, "\"");
    v
}

impl BrowserFingerprint {
    /// The user agent of `browser` on the platform of this profile.
    pub fn generate_user_agent(&self, browser: &BrowserVersion) -> (agent: String)
        requires
            is_known_browser(browser.name@),
        ensures
            agent@ == user_agent_text(*browser, self.platform@, self.platform_version@),
    {
        let mut v: Vec<char> = Vec::new();
        push_str(&mut v, "Mozilla/5.0 (");
        if str_eq(self.platform.as_str(), "Windows") {
            push_str(&mut v, "Windows NT ");
            push_str(&mut v, self.platform_version.as_str());
            push_str(&mut v, "; Win64; x64");
            assert(v@ == "Mozilla/5.0 ("@ + system_text(self.platform@, self.platform_version@));
        } else {
            push_str(&mut v, "Macintosh; Intel Mac OS X ");
            push_str(&mut v, self.platform_version.as_str());
            assert(v@ == "Mozilla/5.0 ("@ + system_text(self.platform@, self.platform_version@));
        }
        let version = to_decimal(browser.min_version as u64);
        if str_eq(browser.name, "Chrome") {
            push_str(&mut v, ") ");
            push_str(&mut v, browser.engine);
            push_str(&mut v, " ");
            push_str(&mut v, browser.version_prefix);
            push_str(&mut v, " ");
            push_chars(&mut v, &version);
            push_str(&mut v, " Safari/537.36");
        } else if str_eq(browser.name, "Firefox") {
            push_str(&mut v, ") Gecko/");
            push_str(&mut v, browser.engine_version);
            push_str(&mut v, " Firefox/");
            push_chars(&mut v, &version);
        } else {
            push_str(&mut v, ") AppleWebKit/605.1.15 (KHTML, like Gecko) Version/");
            push_chars(&mut v, &version);
            push_str(&mut v, " Safari/605.1.15");
        }
        assert(v@ == user_agent_text(*browser, self.platform@, self.platform_version@));
        to_string(&v)
    }

    /// Writes the headers of the profile anew, for `browser`.
    #[verifier::rlimit(50)]
    pub fn generate_headers(&mut self, browser: &BrowserVersion)
        ensures
            final(self).headers.deep_view() == profile_headers(*old(self), *browser),
            final(self).user_agent == old(self).user_agent,
            final(self).accept_language == old(self).accept_language,
            final(self).platform == old(self).platform,
            final(self).viewport == old(self).viewport,
            final(self).color_depth == old(self).color_depth,
            final(self).pixel_ratio == old(self).pixel_ratio,
            final(self).timezone_offset == old(self).timezone_offset,
            final(self).hardware_concurrency == old(self).hardware_concurrency,
            final(self).memory_gb == old(self).memory_gb,
            final(self).webgl_vendor == old(self).webgl_vendor,
            final(self).webgl_renderer == old(self).webgl_renderer,
            final(self).architecture == old(self).architecture,
            final(self).bitness == old(self).bitness,
            final(self).platform_version == old(self).platform_version,
            final(self).browser_version == old(self).browser_version,
            final(self).mobile == old(self).mobile,
            final(self).connection_type == old(self).connection_type,
            final(self).preferred_languages == old(self).preferred_languages,
    {
        let mut headers: Vec<(String, String)> = Vec::new();
        headers.push(text_header("User-Agent", self.user_agent.as_str()));
        headers.push(text_header("Accept-Language", self.accept_language.as_str()));
        headers.push(
            text_header(
                "Accept",
                "text/html,application/xhtml+xml,application/xml;q=0.9,image/avif,image/webp,*/*;q=0.8",
            ),
        );
        headers.push(text_header("Accept-Encoding", "gzip, deflate, br"));
        headers.push(text_header("Connection", "keep-alive"));
        let memory = to_decimal(self.memory_gb as u64);
        let ghost first = headers.deep_view();
        if str_eq(browser.name, "Chrome") {
            headers.push(text_header("Sec-CH-UA", browser.brand_version.as_str()));
            headers.push(text_header("Sec-CH-UA-Mobile", "?0"));
            headers.push(header("Sec-CH-UA-Platform", &quoted(self.platform.as_str())));
            headers.push(header("Sec-CH-UA-Arch", &quoted(self.architecture)));
            headers.push(header("Sec-CH-UA-Bitness", &quoted(self.bitness)));
            headers.push(text_header("Sec-CH-UA-Full-Version-List", browser.brand_version.as_str()));
            headers.push(header("Device-Memory", &memory));
            headers.push(text_header("Sec-CH-UA-Model", ""));
            headers.push(header("Color-Depth", &to_decimal(self.color_depth as u64)));
            headers.push(
                header("Hardware-Concurrency", &to_decimal(self.hardware_concurrency as u64)),
            );
            assert(headers.deep_view() =~= first + chrome_headers(*self, *browser));
        } else {
            assert(headers.deep_view() =~= first + Seq::<(Seq<char>, Seq<char>)>::empty());
        }
        let ghost second = headers.deep_view();
        headers.push(header("Viewport-Width", &to_decimal(self.viewport.0 as u64)));
        headers.push(header("DPR", &to_one_decimal(self.pixel_ratio)));
        headers.push(header("Device-Memory", &memory));
        headers.push(text_header("RTT", "50"));
        headers.push(text_header("Downlink", "10.0"));
        headers.push(text_header("ECT", self.connection_type));
        assert(headers.deep_view() =~= second + seq![
            ("Viewport-Width"@, decimal(self.viewport.0 as nat)),
            ("DPR"@, one_decimal(self.pixel_ratio as nat)),
            ("Device-Memory"@, decimal(self.memory_gb as nat)),
            ("RTT"@, "50"@),
            ("Downlink"@, "10.0"@),
            ("ECT"@, self.connection_type@),
        ]);
        self.headers = headers;
    }

    /// The profile of `browser` that holds what `draw` holds.
    pub fn assemble(browser: &BrowserVersion, draw: Draw) -> (fp: BrowserFingerprint)
        requires
            is_known_browser(browser.name@),
        ensures
            is_profile(fp, *browser),
            holds_draw(fp, draw),
    {
        let mut preferred_languages: Vec<String> = Vec::new();
        preferred_languages.push(draw.language.to_owned());
        if draw.with_english {
            preferred_languages.push("en-US,en;q=0.9".to_owned());
        }
        let mut version = to_decimal(browser.min_version as u64);
        version.push('.');
        let max = to_decimal(browser.max_version as u64);
        push_chars(&mut version, &max);
        assert(version@ == decimal(browser.min_version as nat) + seq!['.'] + decimal(
            browser.max_version as nat,
        ));
        let mut instance = BrowserFingerprint {
            user_agent: String::new(),
            accept_language: draw.language.to_owned(),
            platform: browser.platform.to_owned(),
            viewport: draw.viewport,
            color_depth: draw.color_depth,
            pixel_ratio: draw.pixel_ratio,
            timezone_offset: draw.timezone_offset,
            hardware_concurrency: draw.hardware_concurrency,
            memory_gb: draw.memory_gb,
            webgl_vendor: draw.webgl_vendor.to_owned(),
            webgl_renderer: draw.webgl_renderer.to_owned(),
            architecture: draw.architecture,
            bitness: if str_eq(browser.platform, "Windows") {
                "64"
            } else {
                "32"
            },
            platform_version: draw.platform_version.to_owned(),
            browser_version: to_string(&version),
            mobile: false,
            headers: Vec::new(),
            connection_type: draw.connection_type,
            preferred_languages,
        };
        assert(instance.preferred_languages.deep_view() =~= if draw.with_english {
            seq![draw.language@, "en-US,en;q=0.9"@]
        } else {
            seq![draw.language@]
        });
        instance.user_agent = instance.generate_user_agent(browser);
        let ghost before = instance;
        instance.generate_headers(browser);
        assert(instance.preferred_languages.deep_view()[0] == instance.preferred_languages[0]@);
        assert(chrome_headers(instance, *browser) == chrome_headers(before, *browser));
        assert(profile_headers(instance, *browser) == profile_headers(before, *browser));
        instance
    }
}

/// Whether `browser` has these values.
pub open spec fn is_browser(
    browser: BrowserVersion,
    name: Seq<char>,
    version_prefix: Seq<char>,
    min_version: u32,
    max_version: u32,
    platform: Seq<char>,
    engine: Seq<char>,
    engine_version: Seq<char>,
    brand_version: Seq<char>,
) -> bool {
    &&& browser.name@ == name
    &&& browser.version_prefix@ == version_prefix
    &&& browser.min_version == min_version
    &&& browser.max_version == max_version
    &&& browser.platform@ == platform
    &&& browser.engine@ == engine
    &&& browser.engine_version@ == engine_version
    &&& browser.brand_version@ == brand_version
}

/// The browsers that profiles are made for: Chrome and Firefox on Windows,
/// Safari on a Macintosh.
pub fn browser_configs() -> (configs: Vec<BrowserVersion>)
    ensures
        configs.len() == 3,
        is_browser(
            configs[0],
            "Chrome"@,
            "Chrome/"@,
            90,
            119,
            "Windows"@,
            "Blink"@,
            "90.0.0.0"@,
            "90.0.6099.109"@,
        ),
        is_browser(
            configs[1],
            "Firefox"@,
            "Firefox/"@,
            90,
            119,
            "Windows"@,
            "Gecko"@,
            "90.0"@,
            "90.0"@,
        ),
        is_browser(
            configs[2],
            "Safari"@,
            "Version/"@,
            15,
            17,
            "Macintosh"@,
            "WebKit"@,
            "15.0"@,
            "15.0"@,
        ),
        forall|i: int| 0 <= i < 3 ==> is_known_browser((#[trigger] configs[i]).name@),
{
    let mut configs: Vec<BrowserVersion> = Vec::new();
    configs.push(
        BrowserVersion {
            name: "Chrome",
            version_prefix: "Chrome/",
            min_version: 90,
            max_version: 119,
            platform: "Windows",
            engine: "Blink",
            engine_version: "90.0.0.0",
            brand_version: "90.0.6099.109".to_owned(),
        },
    );
    configs.push(
        BrowserVersion {
            name: "Firefox",
            version_prefix: "Firefox/",
            min_version: 90,
            max_version: 119,
            platform: "Windows",
            engine: "Gecko",
            engine_version: "90.0",
            brand_version: "90.0".to_owned(),
        },
    );
    configs.push(
        BrowserVersion {
            name: "Safari",
            version_prefix: "Version/",
            min_version: 15,
            max_version: 17,
            platform: "Macintosh",
            engine: "WebKit",
            engine_version: "15.0",
            brand_version: "15.0".to_owned(),
        },
    );
    configs
}

/// The sizes of the screens.
pub open spec fn viewport_table() -> Seq<(u32, u32)> {
    seq![
        (1920u32, 1080u32),
        (1366u32, 768u32),
        (1536u32, 864u32),
        (1440u32, 900u32),
        (1280u32, 720u32),
    ]
}

/// The pixel ratios, in hundredths, of the screens that are not plain.
pub open spec fn pixel_ratio_table() -> Seq<u32> {
    seq![150u32, 200u32, 225u32, 300u32]
}

/// The offsets of the time zones, in minutes.
pub open spec fn timezone_table() -> Seq<i32> {
    seq![
        -480i32,
        -420i32,
        -360i32,
        -300i32,
        -240i32,
        -180i32,
        0i32,
        60i32,
        120i32,
        180i32,
        240i32,
        300i32,
        360i32,
        420i32,
        480i32,
        540i32,
        600i32,
    ]
}

/// The numbers of processor cores.
pub open spec fn concurrency_table() -> Seq<u8> {
    seq![2u8, 4u8, 6u8, 8u8, 12u8, 16u8]
}

/// The sizes of the memory, in gigabytes.
pub open spec fn memory_table() -> Seq<u8> {
    seq![4u8, 8u8, 16u8, 32u8]
}

/// The graphics chips, each as its renderer and its vendor.
pub open spec fn webgl_table() -> Seq<(Seq<char>, Seq<char>)> {
    seq![
        ("ANGLE (Apple, Apple M1 Pro, OpenGL 4.1)"@, "ANGLE (Metal, Apple M1 Pro, OpenGL 4.1)"@),
        (
            "ANGLE (Intel, Intel(R) UHD Graphics, OpenGL 4.1)"@,
            "ANGLE (Metal, Intel(R) UHD Graphics, OpenGL 4.1)"@,
        ),
        (
            "ANGLE (AMD, AMD Radeon Pro 5500M, OpenGL 4.1)"@,
            "ANGLE (Metal, AMD Radeon Pro 5500M, OpenGL 4.1)"@,
        ),
    ]
}

/// The languages.
pub open spec fn language_table() -> Seq<Seq<char>> {
    seq!["en-US"@, "en-GB"@, "fr-FR"@, "de-DE"@, "es-ES"@, "it-IT"@, "ja-JP"@]
}

/// The processor architectures.
pub open spec fn architecture_table() -> Seq<Seq<char>> {
    seq!["aarch64"@, "x86_64"@]
}

/// The versions of the operating system.
pub open spec fn platform_version_table() -> Seq<Seq<char>> {
    seq![
        "10_15_7"@,
        "11_0_0"@,
        "11_2_3"@,
        "11_3_1"@,
        "11_4_0"@,
        "11_5_2"@,
        "11_6_0"@,
        "12_0_0"@,
        "12_1_0"@,
        "12_2_1"@,
        "12_3_0"@,
        "12_4_0"@,
        "12_5_0"@,
        "12_6_0"@,
        "13_0_0"@,
        "13_1_0"@,
        "13_2_0"@,
        "13_3_0"@,
        "13_4_0"@,
        "13_5_0"@,
    ]
}

/// The kinds of connection.
pub open spec fn connection_table() -> Seq<Seq<char>> {
    seq!["wifi"@, "4g"@, "3g"@]
}

/// Whether `fp` holds only what profiles are drawn from.
pub open spec fn is_from_tables(fp: BrowserFingerprint) -> bool {
    &&& viewport_table().contains(fp.viewport)
    &&& fp.color_depth == 24 || fp.color_depth == 32
    &&& fp.pixel_ratio == 100 || pixel_ratio_table().contains(fp.pixel_ratio)
    &&& timezone_table().contains(fp.timezone_offset)
    &&& concurrency_table().contains(fp.hardware_concurrency)
    &&& memory_table().contains(fp.memory_gb)
    &&& webgl_table().contains((fp.webgl_renderer@, fp.webgl_vendor@))
    &&& language_table().contains(fp.accept_language@)
    &&& architecture_table().contains(fp.architecture@)
    &&& platform_version_table().contains(fp.platform_version@)
    &&& connection_table().contains(fp.connection_type@)
}

/// The sizes of the screens.
fn viewport_sizes() -> (v: Vec<(u32, u32)>)
    ensures
        v@ == viewport_table(),
{
    vec![(1920, 1080), (1366, 768), (1536, 864), (1440, 900), (1280, 720)]
}

/// The pixel ratios of the screens that are not plain.
fn pixel_ratios() -> (v: Vec<u32>)
    ensures
        v@ == pixel_ratio_table(),
{
    vec![150, 200, 225, 300]
}

/// The offsets of the time zones.
fn timezone_offsets() -> (v: Vec<i32>)
    ensures
        v@ == timezone_table(),
{
    vec![-480, -420, -360, -300, -240, -180, 0, 60, 120, 180, 240, 300, 360, 420, 480, 540, 600]
}

/// The numbers of processor cores.
fn concurrencies() -> (v: Vec<u8>)
    ensures
        v@ == concurrency_table(),
{
    vec![2, 4, 6, 8, 12, 16]
}

/// The sizes of the memory.
fn memories() -> (v: Vec<u8>)
    ensures
        v@ == memory_table(),
{
    vec![4, 8, 16, 32]
}

/// The graphics chips, each as its renderer and its vendor.
fn webgl_configs() -> (v: Vec<(&'static str, &'static str)>)
    ensures
        v.len() == 3,
        v.deep_view() == webgl_table(),
{
    let v = vec![
        ("ANGLE (Apple, Apple M1 Pro, OpenGL 4.1)", "ANGLE (Metal, Apple M1 Pro, OpenGL 4.1)"),
        (
            "ANGLE (Intel, Intel(R) UHD Graphics, OpenGL 4.1)",
            "ANGLE (Metal, Intel(R) UHD Graphics, OpenGL 4.1)",
        ),
        (
            "ANGLE (AMD, AMD Radeon Pro 5500M, OpenGL 4.1)",
            "ANGLE (Metal, AMD Radeon Pro 5500M, OpenGL 4.1)",
        ),
    ];
    assert(v.deep_view() =~= webgl_table());
    v
}

/// The languages.
fn languages() -> (v: Vec<&'static str>)
    ensures
        v.len() == 7,
        v.deep_view() == language_table(),
{
    let v = vec!["en-US", "en-GB", "fr-FR", "de-DE", "es-ES", "it-IT", "ja-JP"];
    assert(v.deep_view() =~= language_table());
    v
}

/// The processor architectures.
fn architectures() -> (v: Vec<&'static str>)
    ensures
        v.len() == 2,
        v.deep_view() == architecture_table(),
{
    let v = vec!["aarch64", "x86_64"];
    assert(v.deep_view() =~= architecture_table());
    v
}

/// The versions of the operating system.
fn platform_versions() -> (v: Vec<&'static str>)
    ensures
        v.len() == 20,
        v.deep_view() == platform_version_table(),
{
    let v = vec![
        "10_15_7",
        "11_0_0",
        "11_2_3",
        "11_3_1",
        "11_4_0",
        "11_5_2",
        "11_6_0",
        "12_0_0",
        "12_1_0",
        "12_2_1",
        "12_3_0",
        "12_4_0",
        "12_5_0",
        "12_6_0",
        "13_0_0",
        "13_1_0",
        "13_2_0",
        "13_3_0",
        "13_4_0",
        "13_5_0",
    ];
    assert(v.deep_view() =~= platform_version_table());
    v
}

/// The kinds of connection.
fn connection_types() -> (v: Vec<&'static str>)
    ensures
        v.len() == 3,
        v.deep_view() == connection_table(),
{
    let v = vec!["wifi", "4g", "3g"];
    assert(v.deep_view() =~= connection_table());
    v
}

/// The texts `items[i..]`, each but the very first after a comma.
pub open spec fn comma_joined_from(items: Seq<Seq<char>>, i: int) -> Seq<char>
    decreases items.len() - i,
{
    if !(0 <= i < items.len()) {
        Seq::empty()
    } else if i == 0 {
        items[i] + comma_joined_from(items, i + 1)
    } else {
        seq![','] + items[i] + comma_joined_from(items, i + 1)
    }
}

/// The headers that a request with the profile `fp` carries, in the order in
/// which they are set; of two headers of one name the later one counts.
pub open spec fn request_headers_of(fp: BrowserFingerprint) -> Seq<(Seq<char>, Seq<char>)> {
    seq![
        ("User-Agent"@, fp.user_agent@),
        ("Accept-Language"@, fp.accept_language@),
        ("Sec-CH-UA-Platform-Version"@, fp.platform_version@),
        ("Sec-CH-UA-Model"@, ""@),
        ("Sec-CH-UA-Mobile"@, if fp.mobile {
            "?1"@
        } else {
            "?0"@
        }),
        ("Viewport-Width"@, decimal(fp.viewport.0 as nat)),
        ("Width"@, decimal(fp.viewport.0 as nat)),
        ("Device-Memory"@, decimal(fp.memory_gb as nat)),
        ("Sec-CH-UA-Full-Version"@, fp.browser_version@),
        ("Sec-CH-UA-WebGL-Vendor"@, fp.webgl_vendor@),
        ("Sec-CH-UA-WebGL-Renderer"@, fp.webgl_renderer@),
        ("Sec-CH-UA-Arch"@, fp.architecture@),
        ("Sec-CH-UA-Bitness"@, fp.bitness@),
        ("Downlink"@, "10.0"@),
        ("ECT"@, fp.connection_type@),
        ("RTT"@, "50"@),
        ("Color-Depth"@, decimal(fp.color_depth as nat)),
        ("Hardware-Concurrency"@, decimal(fp.hardware_concurrency as nat)),
        ("Time-Zone"@, signed_decimal(fp.timezone_offset as int)),
        ("Accept-Language"@, comma_joined_from(fp.preferred_languages.deep_view(), 0)),
    ] + fp.headers.deep_view()
}

impl BrowserFingerprint {
    /// A profile drawn with a generator that starts from `seed`.
    pub fn generate(seed: u64) -> (fp: BrowserFingerprint)
        ensures
            is_some_profile(fp),
            is_from_tables(fp),
    {
        let mut rng = rng_from_seed(seed);
        let configs = browser_configs();
        let browser = pick(&configs, &mut rng);
        let viewports = viewport_sizes();
        let viewport = *pick(&viewports, &mut rng);
        let color_depth: u32 = if chance(&mut rng, 9, 10) {
            24
        } else {
            32
        };
        let ratios = pixel_ratios();
        let pixel_ratio: u32 = if chance(&mut rng, 7, 10) {
            100
        } else {
            *pick(&ratios, &mut rng)
        };
        let offsets = timezone_offsets();
        let timezone_offset = *pick(&offsets, &mut rng);
        let cores = concurrencies();
        let hardware_concurrency = *pick(&cores, &mut rng);
        let sizes = memories();
        let memory_gb = *pick(&sizes, &mut rng);
        let chips = webgl_configs();
        let chip = *pick(&chips, &mut rng);
        let tongues = languages();
        let language = *pick(&tongues, &mut rng);
        let with_english = chance(&mut rng, 3, 10);
        let machines = architectures();
        let architecture = *pick(&machines, &mut rng);
        let versions = platform_versions();
        let platform_version = *pick(&versions, &mut rng);
        let connections = connection_types();
        let connection_type = *pick(&connections, &mut rng);
        let draw = Draw {
            viewport,
            color_depth,
            pixel_ratio,
            timezone_offset,
            hardware_concurrency,
            memory_gb,
            webgl_vendor: chip.1,
            webgl_renderer: chip.0,
            language,
            with_english,
            architecture,
            platform_version,
            connection_type,
        };
        proof {
            let i = choose|i: int| 0 <= i < configs@.len() && configs@[i] == *browser;
            assert(is_known_browser(configs[i].name@));
            let c = choose|i: int| 0 <= i < chips@.len() && chips@[i] == chip;
            assert(chips.deep_view()[c] == (chip.0@, chip.1@));
            let l = choose|i: int| 0 <= i < tongues@.len() && tongues@[i] == language;
            assert(tongues.deep_view()[l] == language@);
            let m = choose|i: int| 0 <= i < machines@.len() && machines@[i] == architecture;
            assert(machines.deep_view()[m] == architecture@);
            let v = choose|i: int| 0 <= i < versions@.len() && versions@[i] == platform_version;
            assert(versions.deep_view()[v] == platform_version@);
            let k = choose|i: int|
                0 <= i < connections@.len() && connections@[i] == connection_type;
            assert(connections.deep_view()[k] == connection_type@);
        }
        let fp = BrowserFingerprint::assemble(browser, draw);
        assert(is_profile(fp, *browser));
        assert(fp.accept_language@ == language@) by {
            assert(fp.preferred_languages.deep_view()[0] == fp.preferred_languages[0]@);
        }
        fp
    }

    /// The headers that a request with this profile carries, in the order in
    /// which they are to be set.
    #[verifier::rlimit(50)]
    pub fn request_headers(&self) -> (headers: Vec<(String, String)>)
        ensures
            headers.deep_view() == request_headers_of(*self),
    {
        let mut headers: Vec<(String, String)> = Vec::new();
        let width = to_decimal(self.viewport.0 as u64);
        headers.push(text_header("User-Agent", self.user_agent.as_str()));
        headers.push(text_header("Accept-Language", self.accept_language.as_str()));
        headers.push(text_header("Sec-CH-UA-Platform-Version", self.platform_version.as_str()));
        headers.push(text_header("Sec-CH-UA-Model", ""));
        headers.push(text_header("Sec-CH-UA-Mobile", if self.mobile {
            "?1"
        } else {
            "?0"
        }));
        headers.push(header("Viewport-Width", &width));
        headers.push(header("Width", &width));
        headers.push(header("Device-Memory", &to_decimal(self.memory_gb as u64)));
        headers.push(text_header("Sec-CH-UA-Full-Version", self.browser_version.as_str()));
        headers.push(text_header("Sec-CH-UA-WebGL-Vendor", self.webgl_vendor.as_str()));
        headers.push(text_header("Sec-CH-UA-WebGL-Renderer", self.webgl_renderer.as_str()));
        headers.push(text_header("Sec-CH-UA-Arch", self.architecture));
        headers.push(text_header("Sec-CH-UA-Bitness", self.bitness));
        headers.push(text_header("Downlink", "10.0"));
        headers.push(text_header("ECT", self.connection_type));
        headers.push(text_header("RTT", "50"));
        headers.push(header("Color-Depth", &to_decimal(self.color_depth as u64)));
        headers.push(header("Hardware-Concurrency", &to_decimal(self.hardware_concurrency as u64)));
        headers.push(header("Time-Zone", &to_signed_decimal(self.timezone_offset)));
        let mut langs: Vec<char> = Vec::new();
        let mut i: usize = 0;
        while i < self.preferred_languages.len()
            invariant
                i <= self.preferred_languages.len(),
                langs@ + comma_joined_from(self.preferred_languages.deep_view(), i as int)
                    == comma_joined_from(self.preferred_languages.deep_view(), 0),
            decreases self.preferred_languages.len() - i,
        {
            let ghost before = langs@;
            let ghost rest = comma_joined_from(self.preferred_languages.deep_view(), i as int);
            if i > 0 {
                langs.push(',');
            }
            push_str(&mut langs, self.preferred_languages[i].as_str());
            i += 1;
            assert(langs@ + comma_joined_from(self.preferred_languages.deep_view(), i as int)
                == before + rest);
        }
        assert(langs@ + Seq::<char>::empty() == langs@);
        headers.push(header("Accept-Language", &langs));
        let ghost fixed = headers.deep_view();
        let mut k: usize = 0;
        while k < self.headers.len()
            invariant
                k <= self.headers.len(),
                headers.deep_view() == fixed + self.headers.deep_view().take(k as int),
            decreases self.headers.len() - k,
        {
            let ghost before = headers.deep_view();
            let pair = text_header(self.headers[k].0.as_str(), self.headers[k].1.as_str());
            headers.push(pair);
            assert(headers.deep_view() =~= before.push(self.headers.deep_view()[k as int]));
            k += 1;
        }
        assert(self.headers.deep_view().take(self.headers.len() as int)
            == self.headers.deep_view());
        headers
    }

    /// A copy of the profile.
    pub fn duplicate(&self) -> (copy: BrowserFingerprint)
        ensures
            request_headers_of(copy) == request_headers_of(*self),
            forall|browser: BrowserVersion|
                is_profile(*self, browser) ==> is_profile(copy, browser),
            is_from_tables(*self) ==> is_from_tables(copy),
    {
        let mut headers: Vec<(String, String)> = Vec::new();
        let mut k: usize = 0;
        while k < self.headers.len()
            invariant
                k <= self.headers.len(),
                headers.deep_view() == self.headers.deep_view().take(k as int),
            decreases self.headers.len() - k,
        {
            let ghost before = headers.deep_view();
            headers.push(text_header(self.headers[k].0.as_str(), self.headers[k].1.as_str()));
            assert(headers.deep_view() =~= before.push(self.headers.deep_view()[k as int]));
            k += 1;
        }
        assert(self.headers.deep_view().take(self.headers.len() as int)
            == self.headers.deep_view());
        let mut preferred_languages: Vec<String> = Vec::new();
        let mut i: usize = 0;
        while i < self.preferred_languages.len()
            invariant
                i <= self.preferred_languages.len(),
                preferred_languages.deep_view() == self.preferred_languages.deep_view().take(
                    i as int,
                ),
            decreases self.preferred_languages.len() - i,
        {
            let ghost before = preferred_languages.deep_view();
            preferred_languages.push(self.preferred_languages[i].clone());
            assert(preferred_languages.deep_view() =~= before.push(
                self.preferred_languages.deep_view()[i as int],
            ));
            i += 1;
        }
        assert(self.preferred_languages.deep_view().take(self.preferred_languages.len() as int)
            == self.preferred_languages.deep_view());
        let copy = BrowserFingerprint {
            user_agent: self.user_agent.clone(),
            accept_language: self.accept_language.clone(),
            platform: self.platform.clone(),
            viewport: self.viewport,
            color_depth: self.color_depth,
            pixel_ratio: self.pixel_ratio,
            timezone_offset: self.timezone_offset,
            hardware_concurrency: self.hardware_concurrency,
            memory_gb: self.memory_gb,
            webgl_vendor: self.webgl_vendor.clone(),
            webgl_renderer: self.webgl_renderer.clone(),
            architecture: self.architecture,
            bitness: self.bitness,
            platform_version: self.platform_version.clone(),
            browser_version: self.browser_version.clone(),
            mobile: self.mobile,
            headers,
            connection_type: self.connection_type,
            preferred_languages,
        };
        assert forall|browser: BrowserVersion| is_profile(*self, browser) implies is_profile(
            copy,
            browser,
        ) by {
            assert(chrome_headers(copy, browser) == chrome_headers(*self, browser));
            assert(profile_headers(copy, browser) == profile_headers(*self, browser));
            assert(copy.preferred_languages.deep_view()[0] == copy.preferred_languages[0]@);
            assert(self.preferred_languages.deep_view()[0] == self.preferred_languages[0]@);
        }
        copy
    }
}

/// A stock of profiles.
pub struct FingerprintCache {
    pub fingerprints: Vec<BrowserFingerprint>,
}

impl FingerprintCache {
    /// Whether every profile of the stock is a profile of a browser that
    /// profiles are made for, and holds only what profiles are drawn from.
    pub open spec fn wf(&self) -> bool {
        forall|i: int|
            0 <= i < self.fingerprints.len() ==> is_some_profile(#[trigger] self.fingerprints[i])
                && is_from_tables(self.fingerprints[i])
    }

    /// A stock with one profile for each of `seeds`.
    pub fn new(seeds: &Vec<u64>) -> (cache: FingerprintCache)
        ensures
            cache.fingerprints.len() == seeds.len(),
            cache.wf(),
    {
        let mut fingerprints: Vec<BrowserFingerprint> = Vec::new();
        let mut i: usize = 0;
        while i < seeds.len()
            invariant
                i <= seeds.len(),
                fingerprints.len() == i,
                forall|k: int|
                    0 <= k < i ==> is_some_profile(#[trigger] fingerprints[k]) && is_from_tables(
                        fingerprints[k],
                    ),
            decreases seeds.len() - i,
        {
            fingerprints.push(BrowserFingerprint::generate(seeds[i]));
            i += 1;
        }
        FingerprintCache { fingerprints }
    }

    /// A profile for the next request: one time in ten a new one, drawn from
    /// `fresh_seed`, else one of the stock, picked with a generator that
    /// starts from `seed`. The stock must not be empty.
    pub fn get_random(&self, seed: u64, fresh_seed: u64) -> (fp: BrowserFingerprint)
        requires
            self.fingerprints.len() > 0,
        ensures
            self.wf() ==> is_some_profile(fp) && is_from_tables(fp),
    {
        let mut rng = rng_from_seed(seed);
        if chance(&mut rng, 1, 10) {
            BrowserFingerprint::generate(fresh_seed)
        } else {
            let stock = pick(&self.fingerprints, &mut rng);
            let copy = stock.duplicate();
            proof {
                if self.wf() {
                    let i = choose|i: int|
                        0 <= i < self.fingerprints@.len() && self.fingerprints@[i] == *stock;
                    assert(is_some_profile(self.fingerprints[i]));
                    let browser = choose|browser: BrowserVersion|
                        is_known_browser(browser.name@) && #[trigger] is_profile(*stock, browser);
                    assert(is_profile(copy, browser));
                }
            }
            copy
        }
    }
}

} // verus!
