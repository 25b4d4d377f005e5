//! The parsed command line, as plain values.

use vstd::prelude::*;

verus! {

/// The options given on the command line. A `None` string option was not
/// given; a `bool` option is `true` when its flag was given.
pub struct Arguments {
    /// `-f/--file`: the file to extract from.
    pub file: Option<String>,
    /// `-C/--clean`: report only the matched text, not the whole line.
    pub clean: bool,
    /// `--directory`: process every file under this directory.
    pub directory: Option<String>,
    /// `--ignore`: silence error messages.
    pub ignore: bool,
    /// `-l/--line`: show the line number of each match.
    pub count: bool,
    /// `-T/--thorough`: do not stop at the first match of a line.
    pub thorough: bool,
    /// `-D/--display`: show the file name with each match.
    pub display: bool,
    /// `-S/--suppress`: no "Reading standard input" notice.
    pub suppress: bool,
    /// `--drop`: leave out what this expression matches.
    pub drop: Option<String>,
    /// `--filter`: keep only what this expression matches.
    pub filter: Option<String>,
    /// `-X/--hide`: leave out the content type in front of each match.
    pub hide: bool,
    /// `-o/--output`: write the results to this file.
    pub output: Option<String>,
    /// `-t/--time`: report how long the run took.
    pub time: bool,
    /// `-e/--email`
    pub email: bool,
    /// `-p/--phone`
    pub phone_number: bool,
    /// `-H/--hash`
    pub hashes: bool,
    /// `-i/--ip-addr`
    pub ip_address: bool,
    /// `-6/--ipv6-addr`
    pub ipv6_address: bool,
    /// `-m/--mac-addr`
    pub mac_address: bool,
    /// `-c/--credit-card`
    pub credit_card: bool,
    /// `-u/--url`
    pub url: bool,
    /// `-F/--files`
    pub files: bool,
    /// `-b/--bitcoin`
    pub bitcoin_wallet: bool,
    /// `-a/--aws`
    pub aws_keys: bool,
    /// `-g/--google`
    pub google: bool,
    /// `-d/--dns`
    pub srv_dns: bool,
    /// `-s/--social`
    pub social_security: bool,
}

/// The text of an optional string option; an absent option reads as empty.
pub open spec fn option_text(o: Option<String>) -> Seq<char> {
    match o {
        Some(s) => s@,
        None => Seq::empty(),
    }
}

/// The text of an optional string option, an absent one read as empty.
pub fn option_string(o: &Option<String>) -> (r: String)
    ensures
        r@ == option_text(*o),
{
    match o {
        Some(s) => s.clone(),
        None => String::new(),
    }
}

} // verus!
