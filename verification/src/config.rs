//! The tool's configuration: webhook URL and message templates.

use vstd::prelude::*;
use crate::template::default_failure_message;
use crate::template::default_success_message;

verus! {

/// The configuration read once at startup: the webhook URL is required, the
/// two templates fall back to fixed defaults when the file names none.
pub struct Config {
    pub webhook_url: String,
    pub success_message: String,
    pub failure_message: String,
}

impl Config {
    /// Builds the configuration from the parsed fields, filling in the
    /// default templates where the file gave none.
    pub fn new(
        webhook_url: String,
        success_message: Option<String>,
        failure_message: Option<String>,
    ) -> (r: Config)
        ensures
            r.webhook_url@ == webhook_url@,
            r.success_message@ == match success_message {
                Some(s) => s@,
                None => "command successfully finished\n$CMD"@,
            },
            r.failure_message@ == match failure_message {
                Some(s) => s@,
                None => "command execution failure\n$CMD\n\n$STDERR"@,
            },
    {
        let success_message = match success_message {
            Some(s) => s,
            None => default_success_message(),
        };
        let failure_message = match failure_message {
            Some(s) => s,
            None => default_failure_message(),
        };
        Config { webhook_url, success_message, failure_message }
    }
}

/// The path of the configuration file: directly under the configuration
/// directory when one is set, else under `.config` in the home directory.
pub open spec fn config_path(config_dir: Option<Seq<char>>, home: Seq<char>) -> Seq<char> {
    match config_dir {
        Some(dir) => dir + "/everlong.yaml"@,
        None => home + "/.config/everlong.yaml"@,
    }
}

/// Resolves the configuration file path from the environment values.
pub fn config_file_path(config_dir: Option<&str>, home: &str) -> (r: String)
    ensures
        r@ == config_path(
            match config_dir {
                Some(d) => Some(d@),
                None => None,
            },
            home@,
        ),
{
    match config_dir {
        Some(dir) => {
            let mut p = dir.to_owned();
            p.append("/everlong.yaml");
            p
        },
        None => {
            let mut p = home.to_owned();
            p.append("/.config/everlong.yaml");
            p
        },
    }
}

} // verus!
