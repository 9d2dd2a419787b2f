use vstd::prelude::*;
use vstd::utf8::{decode_utf8, valid_utf8};

use crate::linux::{linux_entry, linux_table, parse_linux_line, parse_linux_route_output};
use crate::mac::{mac_entry, mac_table, parse_macos_line, parse_macos_route_output};
use crate::model::{opt_entry, IpVersion, RouteEntry, RouteTable, RouteTableView};
use crate::text::{split_token_lines, token_lines};

verus! {

/// Why the routing table could not be collected.
#[derive(Debug, Clone)]
pub enum RouteError {
    /// The route-listing command could not be started.
    CommandSpawnFailed(String),
    /// The command exited unsuccessfully; holds what it wrote to stderr.
    CommandFailed(String),
    /// The command's output was not valid UTF-8.
    OutputDecodeFailed,
    /// The platform has a route-listing command whose output is not parsed.
    NotImplemented,
    /// The platform has no route-listing command.
    UnsupportedPlatform,
}

/// The operating system whose route-listing command is run.
#[derive(Debug, Clone, Copy, PartialEq, Eq, Structural)]
pub enum Platform {
    Linux,
    MacOs,
    Windows,
    Other,
}

/// What running the route-listing command gave.
#[derive(Debug, Clone)]
pub enum CommandOutput {
    /// The command could not be started; holds the reason.
    SpawnFailed(String),
    /// The command ran to its end.
    Exited { success: bool, stdout: Vec<u8>, stderr: String },
}

/// The table that the route listing `s` of `platform` describes.
pub open spec fn platform_table(platform: Platform, s: Seq<char>) -> RouteTableView {
    match platform {
        Platform::MacOs => mac_table(s),
        _ => linux_table(s),
    }
}

/// Relies on `String::from_utf8`: it accepts exactly the valid UTF-8 byte sequences
/// and then holds the characters they encode.
#[verifier::external_body]
fn decode_utf8_text(bytes: Vec<u8>) -> (r: Option<String>)
    ensures
        r is Some <==> valid_utf8(bytes@),
        r matches Some(s) ==> s@ == decode_utf8(bytes@),
{
    String::from_utf8(bytes).ok()
}

/// Turns what the route-listing command of `platform` gave into a routing table:
/// Linux and macOS output is parsed with the parser of that platform; a command that
/// could not start, that failed, or whose output is not UTF-8 gives the matching
/// error; Windows output is not parsed, and other platforms have no command.
pub fn collect_routes(platform: Platform, output: CommandOutput) -> (r: Result<
    RouteTable,
    RouteError,
>)
    ensures
        platform == Platform::Windows ==> r matches Err(RouteError::NotImplemented),
        platform == Platform::Other ==> r matches Err(RouteError::UnsupportedPlatform),
        (platform == Platform::Linux || platform == Platform::MacOs) ==> match output {
            CommandOutput::SpawnFailed(m) => r matches Err(RouteError::CommandSpawnFailed(e))
                && e@ == m@,
            CommandOutput::Exited { success, stdout, stderr } => if !success {
                r matches Err(RouteError::CommandFailed(e)) && e@ == stderr@
            } else if !valid_utf8(stdout@) {
                r matches Err(RouteError::OutputDecodeFailed)
            } else {
                r matches Ok(t) && t@ == platform_table(platform, decode_utf8(stdout@))
            },
        },
{
    match platform {
        Platform::Windows => {
            return Err(RouteError::NotImplemented);
        },
        Platform::Other => {
            return Err(RouteError::UnsupportedPlatform);
        },
        _ => {},
    }
    match output {
        CommandOutput::SpawnFailed(m) => Err(RouteError::CommandSpawnFailed(m)),
        CommandOutput::Exited { success, stdout, stderr } => {
            if !success {
                return Err(RouteError::CommandFailed(stderr));
            }
            match decode_utf8_text(stdout) {
                None => Err(RouteError::OutputDecodeFailed),
                Some(text) => {
                    if platform == Platform::MacOs {
                        parse_macos_route_output(text.as_str())
                    } else {
                        parse_linux_route_output(text.as_str())
                    }
                },
            }
        },
    }
}

/// The entry that one line of route-listing output describes, read with the column
/// layout of `platform` and tagged `ip_version`; `None`
/// for a line with too few columns, or on a platform whose output is not parsed.
pub fn parse_route_line(line: &str, ip_version: IpVersion, platform: Platform) -> (r: Option<
    RouteEntry,
>)
    ensures
        opt_entry(r) == match platform {
            Platform::Linux => linux_entry(token_lines(line@)[0], ip_version),
            Platform::MacOs => mac_entry(token_lines(line@)[0], ip_version),
            _ => None,
        },
{
    let lines = split_token_lines(line);
    assert(lines.deep_view().len() > 0) by {
        lemma_lines_nonempty(line@, 0, Seq::empty(), Seq::empty());
    }
    let toks = &lines[0];
    match platform {
        Platform::Linux => parse_linux_line(toks, ip_version),
        Platform::MacOs => parse_macos_line(toks, ip_version),
        _ => None,
    }
}

proof fn lemma_lines_nonempty(s: Seq<char>, i: int, tok: Seq<char>, line: Seq<Seq<char>>)
    ensures
        crate::text::lines_from(s, i, tok, line).len() > 0,
    decreases s.len() - i,
{
    if 0 <= i < s.len() && s[i] != '\n' {
        if crate::text::is_space(s[i]) {
            lemma_lines_nonempty(s, i + 1, Seq::empty(), crate::text::close_token(line, tok));
        } else {
            lemma_lines_nonempty(s, i + 1, tok.push(s[i]), line);
        }
    }
}

} // verus!
