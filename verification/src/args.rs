use vstd::prelude::*;

verus! {

/// Arguments of the command-line surface. These mirror the subcommands the
/// binary accepts; the argument-parsing shell converts its own structures
/// into these before calling into the library.
#[derive(Debug, Clone, PartialEq)]
pub struct TrsArgs {
    pub sub_command: TrsSubCommand,
}

#[derive(Debug, Clone, PartialEq)]
pub enum TrsSubCommand {
    AddChannel(AddChannelArgs),
    ListChannels(ListChannelArgs),
    GetArticles(GetArticlesArgs),
    RemoveChannel(RemoveChannelArgs),
    MarkRead(MarkReadArgs),
    Ui(UiArgs),
}

/// Add a new RSS channel.
#[derive(Debug, Clone, PartialEq)]
pub struct AddChannelArgs {
    /// Link to the RSS channel.
    pub link: String,
}

/// List RSS channels.
#[derive(Debug, Clone, PartialEq)]
pub struct ListChannelArgs {
    /// Bound on the number of channels to list.
    pub limit: Option<u32>,
}

/// Get articles.
#[derive(Debug, Clone, PartialEq)]
pub struct GetArticlesArgs {
    /// Restrict to the channel with this id.
    pub channel_id: Option<u32>,
    /// Only keep unread articles.
    pub unread: bool,
}

/// Mark an article as read or unread.
#[derive(Debug, Clone, PartialEq)]
pub struct MarkReadArgs {
    /// Id of the article to mark.
    pub id: u32,
    /// Mark the article as unread instead of read.
    pub unread: bool,
}

/// Delete an RSS channel.
#[derive(Debug, Clone, PartialEq)]
pub struct RemoveChannelArgs {
    /// Delete the channel with this id.
    pub id: u32,
}

/// Open the interactive interface.
#[derive(Debug, Clone, PartialEq)]
pub struct UiArgs {
    /// Enable the debug window.
    pub debug: bool,
}

/// `p` is a prefix of `s`.
pub open spec fn seq_starts_with(s: Seq<char>, p: Seq<char>) -> bool {
    p.len() <= s.len() && s.subrange(0, p.len() as int) == p
}

/// A URL is accepted when it starts with one of the two schemes the
/// fetcher understands.
pub open spec fn spec_valid_url(url: Seq<char>) -> bool {
    seq_starts_with(url, "http://"@) || seq_starts_with(url, "https://"@)
}

/// Character-by-character prefix test over the unicode views.
pub fn str_starts_with(s: &str, p: &str) -> (b: bool)
    ensures
        b == seq_starts_with(s@, p@),
{
    let s_len = s.unicode_len();
    let p_len = p.unicode_len();
    if p_len > s_len {
        return false;
    }
    let mut i: usize = 0;
    while i < p_len
        invariant
            i <= p_len <= s_len,
            s_len == s@.len(),
            p_len == p@.len(),
            forall|j: int| 0 <= j < i ==> s@[j] == p@[j],
        decreases p_len - i,
    {
        if s.get_char(i) != p.get_char(i) {
            return false;
        }
        i += 1;
    }
    proof {
        assert(s@.subrange(0, p@.len() as int) =~= p@);
    }
    true
}

/// Accepts a URL exactly when it carries an `http://` or `https://` scheme;
/// a rejected URL comes back inside a message that names it.
pub fn valid_url(url: &str) -> (r: Result<String, String>)
    ensures
        r is Ok <==> spec_valid_url(url@),
        r matches Ok(u) ==> u@ == url@,
        r matches Err(m) ==> m@ == "Invalid URL: "@ + url@,
{
    if str_starts_with(url, "http://") || str_starts_with(url, "https://") {
        Ok(String::from_str(url))
    } else {
        let mut msg = String::from_str("Invalid URL: ");
        msg.append(url);
        Err(msg)
    }
}

} // verus!
