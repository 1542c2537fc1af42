//! Configuration: the small file the reader can edit.
//!
//! No secret goes in it. The DeepSeek key that writes Notes is read from the
//! environment, which is why this file has no place to put one.
use vstd::prelude::*;

verus! {

/// Where cards land when the reader hasn't said otherwise.
pub const DEFAULT_DECK: &'static str = "Vocab";

/// What is written on first run: a template rather than a serialised
/// [`Config`], so the file the reader opens explains itself. Its values are
/// those of [`Config::default`].
pub const TEMPLATE: &'static str = "# vocab

# The Anki deck your cards are written to. Created if it isn't there yet.
deck = \"Vocab\"

# Push everything that changed when you leave. `/quit now` skips it either way,
# and a sync never delays quitting: if Anki isn't running, your Words simply
# stay queued for next time.
sync_on_exit = true

# Nothing secret belongs in this file. The key that writes Notes is read from
# DEEPSEEK_API_KEY in your environment and is never written down here.
";

#[derive(Debug)]
pub struct Config {
    /// The Anki deck cards are written to.
    pub deck: String,
    /// Whether leaving pushes everything changed.
    pub sync_on_exit: bool,
    /// What was wrong with the file, when it could not be used and the
    /// defaults are in force instead. Said once, at launch.
    pub complaint: Option<String>,
}

impl Default for Config {
    fn default() -> (c: Self)
        ensures
            c.deck@ == DEFAULT_DECK@,
            c.sync_on_exit,
            c.complaint is None,
    {
        Config { deck: String::from_str(DEFAULT_DECK), sync_on_exit: true, complaint: None }
    }
}

/// What the reader is told when the file could not be used.
pub open spec fn complaint_text(file_name: Seq<char>, why: Seq<char>) -> Seq<char> {
    "Ignoring "@ + file_name + " — "@ + why + ". Carrying on with the defaults."@
}

impl Config {
    /// The defaults, carrying why the file named `file_name` could not be
    /// used. An optional settings file is never worth standing between the
    /// reader and a capture.
    pub fn unusable(file_name: &str, why: &str) -> (c: Self)
        ensures
            c.deck@ == DEFAULT_DECK@,
            c.sync_on_exit,
            c.complaint matches Some(text) && text@ == complaint_text(file_name@, why@),
    {
        let mut text = crate::text::joined("Ignoring ", file_name);
        text.append(" — ");
        text.append(why);
        text.append(". Carrying on with the defaults.");
        Config { deck: String::from_str(DEFAULT_DECK), sync_on_exit: true, complaint: Some(text) }
    }
}

} // verus!
