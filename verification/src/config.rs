//! Process configuration: the values the chat client consults. Loading
//! and storing the file is I/O and stays outside the library.
use vstd::prelude::*;
use vstd::string::StringExecFns;

verus! {

/// Runtime options.
pub struct Config {
    /// Only reply with a duplicate warning when the message comes from
    /// a channel.
    pub only_mars_for_channel_message: bool,
    /// Bot token, when not supplied on the command line.
    pub token: Option<String>,
    /// Allowed maximum attachment size in bytes.
    pub max_file_size: u32,
    /// Reply template; the original message link replaces the first `{}`.
    pub mars_prompt: String,
}

impl Default for Config {
    /// 10 MiB size cap, warnings for every sender, no token, and the
    /// stock reply template.
    fn default() -> (c: Config)
        ensures
            !c.only_mars_for_channel_message,
            c.token is None,
            c.max_file_size == 10485760,
            c.mars_prompt@ == "You Marsed\\! [Origin message]({})"@,
    {
        let size: u32 = 10 * 1024 * 1024;
        Config {
            only_mars_for_channel_message: false,
            token: None,
            max_file_size: size,
            mars_prompt: String::from_str("You Marsed\\! [Origin message]({})"),
        }
    }
}

} // verus!
