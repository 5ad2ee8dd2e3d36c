use vstd::prelude::*;
use crate::config::Config;
use crate::utils::{decimal_of, push_decimal};

verus! {

/// The rule drawn above and below the addresses in the startup banner.
pub const BANNER_RULE: &'static str = "━━━━━━━━━━━━━━━━━━━━━━━━━━━━━━━━━━━━━━━━━━━━━━━━━━━━━";

/// `host:port` as an http url.
pub open spec fn url_of(host: Seq<char>, port: u16) -> Seq<char> {
    "http://"@ + host + ":"@ + decimal_of(port as nat)
}

fn line_with(prefix: &str, rest: &str) -> (r: String)
    ensures
        r@ == prefix@ + rest@,
{
    let mut r = String::new();
    r.push_str(prefix);
    r.push_str(rest);
    r
}

fn server_line(label: &str, host: &str, port: u16) -> (r: String)
    ensures
        r@ == label@ + url_of(host@, port),
{
    let mut r = String::new();
    r.push_str(label);
    r.push_str("http://");
    r.push_str(host);
    r.push_str(":");
    push_decimal(&mut r, port as u64);
    assert(r@ =~= label@ + url_of(host@, port));
    r
}

/// The lines of the startup banner: the two server addresses and the directory
/// the files are served from (`served_dir`, as the host resolves it), framed by rules.
pub fn print_startup_banner(config: &Config, served_dir: &str) -> (lines: Vec<String>)
    ensures
        lines@.len() == 6,
        lines@[0]@ == "Juicebox-omega starting..."@,
        lines@[1]@ == BANNER_RULE@,
        lines@[2]@ == "📡 PUBLIC FILE SERVER: "@ + url_of(config.public_host@, config.public_port),
        lines@[3]@ == "🔐 ADMIN API SERVER: "@ + url_of(config.admin_host@, config.admin_port),
        lines@[4]@ == "📁 Serving files from: \""@ + served_dir@ + "\""@,
        lines@[5]@ == BANNER_RULE@,
{
    let mut lines: Vec<String> = Vec::new();
    lines.push("Juicebox-omega starting...".to_owned());
    lines.push(BANNER_RULE.to_owned());
    lines.push(server_line("📡 PUBLIC FILE SERVER: ", config.public_host.as_str(), config.public_port));
    lines.push(server_line("🔐 ADMIN API SERVER: ", config.admin_host.as_str(), config.admin_port));
    let mut dir_line = line_with("📁 Serving files from: \"", served_dir);
    dir_line.push_str("\"");
    lines.push(dir_line);
    lines.push(BANNER_RULE.to_owned());
    lines
}

} // verus!
