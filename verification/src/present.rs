//! Decision helpers around the form and the slash command: which block of
//! a modal form carries a given identifier, which option to pre-select
//! from a remembered country, how a slash command is routed, and the
//! composed texts the service posts.

use vstd::prelude::*;

use crate::text::str_eq;

verus! {

/// One block of a modal view, as far as the pre-fill logic reads it: its
/// kind and its optional block identifier. Rich-text blocks carry no
/// identifier the pre-fill logic would match.
#[derive(Debug, Clone, PartialEq)]
pub enum Block {
    Section { block_id: Option<String> },
    Header { block_id: Option<String> },
    Divider { block_id: Option<String> },
    Image { block_id: Option<String> },
    Actions { block_id: Option<String> },
    Context { block_id: Option<String> },
    Input { block_id: Option<String> },
    File { block_id: Option<String> },
    RichText,
}

/// The identifier a block matches against, if any.
pub open spec fn block_id_of(b: Block) -> Option<Seq<char>> {
    match b {
        Block::Section { block_id } => block_id.deep_view(),
        Block::Header { block_id } => block_id.deep_view(),
        Block::Divider { block_id } => block_id.deep_view(),
        Block::Image { block_id } => block_id.deep_view(),
        Block::Actions { block_id } => block_id.deep_view(),
        Block::Context { block_id } => block_id.deep_view(),
        Block::Input { block_id } => block_id.deep_view(),
        Block::File { block_id } => block_id.deep_view(),
        Block::RichText => None,
    }
}

/// The first block carrying the given identifier, as an index.
pub fn find_block(blocks: &Vec<Block>, id: &str) -> (r: Option<usize>)
    ensures
        r matches Some(i) ==> i < blocks.len() && block_id_of(blocks@[i as int]) == Some(id@)
            && forall|j: int| 0 <= j < i ==> block_id_of(blocks@[j]) != Some(id@),
        r is None ==> forall|j: int|
            0 <= j < blocks.len() ==> block_id_of(blocks@[j]) != Some(id@),
{
    let mut i: usize = 0;
    while i < blocks.len()
        invariant
            i <= blocks.len(),
            forall|j: int| 0 <= j < i ==> block_id_of(blocks@[j]) != Some(id@),
        decreases blocks.len() - i,
    {
        let matched = match &blocks[i] {
            Block::Section { block_id } => match block_id {
                Some(b) => str_eq(b.as_str(), id),
                None => false,
            },
            Block::Header { block_id } => match block_id {
                Some(b) => str_eq(b.as_str(), id),
                None => false,
            },
            Block::Divider { block_id } => match block_id {
                Some(b) => str_eq(b.as_str(), id),
                None => false,
            },
            Block::Image { block_id } => match block_id {
                Some(b) => str_eq(b.as_str(), id),
                None => false,
            },
            Block::Actions { block_id } => match block_id {
                Some(b) => str_eq(b.as_str(), id),
                None => false,
            },
            Block::Context { block_id } => match block_id {
                Some(b) => str_eq(b.as_str(), id),
                None => false,
            },
            Block::Input { block_id } => match block_id {
                Some(b) => str_eq(b.as_str(), id),
                None => false,
            },
            Block::File { block_id } => match block_id {
                Some(b) => str_eq(b.as_str(), id),
                None => false,
            },
            Block::RichText => false,
        };
        if matched {
            return Some(i);
        }
        i += 1;
    }
    None
}

/// The option to pre-select for a remembered country: the first option
/// equal to it. A remembered value outside the option list, or no
/// remembered value, selects nothing.
pub fn choose_initial_option(options: &Vec<String>, default_country: &Option<String>) -> (r:
    Option<usize>)
    ensures
        default_country is None ==> r is None,
        default_country matches Some(d) ==> (match r {
            Some(i) => i < options.len() && options@[i as int]@ == d@ && (forall|j: int|
                0 <= j < i ==> options@[j]@ != d@),
            None => forall|j: int| 0 <= j < options.len() ==> options@[j]@ != d@,
        }),
{
    match default_country {
        None => None,
        Some(d) => {
            let mut i: usize = 0;
            while i < options.len()
                invariant
                    *default_country == Some(*d),
                    i <= options.len(),
                    forall|j: int| 0 <= j < i ==> options@[j]@ != d@,
                decreases options.len() - i,
            {
                if str_eq(options[i].as_str(), d.as_str()) {
                    return Some(i);
                }
                i += 1;
            }
            None
        },
    }
}

/// What a slash command asks for.
#[derive(Debug, Clone, Copy, PartialEq, Eq, Structural)]
pub enum CommandAction {
    /// Not the recognized command at all.
    UnknownCommand,
    /// Aggregate the channel history and answer with the totals.
    ShowStats,
    /// Open the submission form.
    ShowForm,
    /// No command text: answer with usage information.
    ShowUsage,
}

/// Routes a slash command: only `/woss` is recognized; its text `stats`
/// asks for the totals, any other text opens the form, and absent text
/// asks for usage information.
pub fn route_command(command: &str, text: &Option<String>) -> (a: CommandAction)
    ensures
        command@ != "/woss"@ ==> a == CommandAction::UnknownCommand,
        command@ == "/woss"@ ==> match text {
            Some(t) => (t@ == "stats"@ ==> a == CommandAction::ShowStats) && (t@ != "stats"@
                ==> a == CommandAction::ShowForm),
            None => a == CommandAction::ShowUsage,
        },
{
    if !str_eq(command, "/woss") {
        return CommandAction::UnknownCommand;
    }
    match text {
        Some(t) => {
            if str_eq(t.as_str(), "stats") {
                CommandAction::ShowStats
            } else {
                CommandAction::ShowForm
            }
        },
        None => CommandAction::ShowUsage,
    }
}

/// Relies on `rand::random_range`: a uniformly drawn index below `n`.
/// Nothing is assumed beyond the range bound.
#[verifier::external_body]
fn random_below(n: usize) -> (r: usize)
    requires
        n > 0,
    ensures
        r < n,
{
    rand::random_range(0..n)
}

/// The acknowledgement posted while deferred work runs: one of the given
/// phrases, drawn at random, between the fixed waiting words. With no
/// phrases the text is composed around an empty phrase.
pub fn loading_message_text(phrases: &Vec<String>) -> (r: String)
    ensures
        phrases.len() == 0 ==> r@ == "Please wait... "@ + "..."@,
        phrases.len() > 0 ==> exists|i: int|
            0 <= i < phrases.len() && r@ == "Please wait... "@ + phrases@[i]@ + "..."@,
{
    let mut s = String::from_str("Please wait... ");
    if phrases.len() > 0 {
        let i = random_below(phrases.len());
        s.append(phrases[i].as_str());
        s.append("...");
        proof {
            let picked = i as int;
            assert(s@ == "Please wait... "@ + phrases@[picked]@ + "..."@);
        }
        s
    } else {
        s.append("...");
        s
    }
}

/// The display name line of a posted record: the resolved contributor
/// name with the service's tag.
pub fn post_username(username: &str) -> (r: String)
    ensures
        r@ == username@ + " via Wizard of OSS"@,
{
    let mut s = String::from_str(username);
    s.append(" via Wizard of OSS");
    s
}

} // verus!
