//! What the static pages need besides their files: the configuration script
//! put into the index page, and the icon served when none is on disk.
use vstd::prelude::*;
use crate::text::{concat3, owned, replace_all, replaced};

verus! {

/// The script that tells the page where the API is.
pub open spec fn config_script_text(api_base_url: Seq<char>) -> Seq<char> {
    "<script>\nwindow.__SEESEA_CONFIG__ = {\n  API_BASE_URL: '"@ + api_base_url + "'\n};\n</script>"@
}

/// The script that tells the page where the API is (an empty address means
/// the page's own origin).
pub fn config_script(api_base_url: &str) -> (s: String)
    ensures
        s@ == config_script_text(api_base_url@),
{
    concat3("<script>\nwindow.__SEESEA_CONFIG__ = {\n  API_BASE_URL: '", api_base_url, "'\n};\n</script>")
}

/// The index page with the configuration script put before each `</head>`.
pub fn inject_config(page: &str, api_base_url: &str) -> (r: String)
    ensures
        r@ == replaced(page@, "</head>"@, config_script_text(api_base_url@) + "\n</head>"@),
{
    let mut with_head = config_script(api_base_url);
    with_head.append("\n</head>");
    proof { reveal_strlit("</head>"); }
    replace_all(page, "</head>", with_head.as_str())
}

/// The icon served when no icon file can be read: a wave on an SVG page.
pub fn fallback_icon() -> (s: &'static str)
    ensures
        s@ == "<svg xmlns=\"http://www.w3.org/2000/svg\" viewBox=\"0 0 100 100\"><text y=\".9em\" font-size=\"90\">🌊</text></svg>"@,
{
    "<svg xmlns=\"http://www.w3.org/2000/svg\" viewBox=\"0 0 100 100\"><text y=\".9em\" font-size=\"90\">🌊</text></svg>"
}

/// Where an icon file may be, in the order they are tried.
pub fn icon_paths() -> (v: Vec<String>)
    ensures
        v@.len() == 2,
        v@[0]@ == "static/image/favicon.ico"@,
        v@[1]@ == "server/static/favicon.ico"@,
{
    vec![owned("static/image/favicon.ico"), owned("server/static/favicon.ico")]
}

/// How long browsers may keep the icon.
pub fn icon_cache_control() -> (s: &'static str)
    ensures
        s@ == "public, max-age=86400"@,
{
    "public, max-age=86400"
}

} // verus!
