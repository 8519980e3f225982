//! Small address-formatting helpers shared by the channel handlers.

use vstd::prelude::*;
use vstd::string::StrSliceExecFns;
use vstd::string::StringExecFns;

pub mod link;

verus! {

/// The abbreviated form of an address: its first and last four characters
/// around an ellipsis, or the address itself when it is shorter than four
/// characters.
pub open spec fn spec_short_address(address: Seq<char>) -> Seq<char> {
    if address.len() >= 4 {
        address.take(4) + seq!['.', '.', '.'] + address.skip(address.len() - 4)
    } else {
        address
    }
}

/// Abbreviate an address for display.
pub fn get_short_address(address: &str) -> (r: String)
    ensures
        r@ == spec_short_address(address@),
{
    let n = address.unicode_len();
    if n >= 4 {
        let first = address.substring_char(0, 4);
        let last = address.substring_char(n - 4, n);
        let r = first.to_owned().concat("...").concat(last);
        proof {
            reveal_strlit("...");
            assert("..."@ =~= seq!['.', '.', '.']);
            assert(r@ =~= spec_short_address(address@));
        }
        r
    } else {
        address.to_owned()
    }
}

/// The block-explorer page of an address.
pub open spec fn spec_explorer_address(address: Seq<char>) -> Seq<char> {
    "https://etherscan.io/address/"@ + address
}

/// Build the block-explorer link for an address.
pub fn get_explorer_address(address: &str) -> (r: String)
    ensures
        r@ == spec_explorer_address(address@),
{
    "https://etherscan.io/address/".to_owned().concat(address)
}

/// The wording of a governance vote direction: 0 against, 1 for, 2 abstain,
/// anything else unknown.
pub fn vote_direction_words(direction: usize) -> (r: &'static str)
    ensures
        direction == 0 ==> r@ == "against"@,
        direction == 1 ==> r@ == "for"@,
        direction == 2 ==> r@ == "abstain on"@,
        direction > 2 ==> r@ == "unknown"@,
{
    match direction {
        0 => "against",
        1 => "for",
        2 => "abstain on",
        _ => "unknown",
    }
}

/// `text` shortened to fit a message budget: unchanged when it has at most
/// `limit` characters, else its first `limit` characters with an ellipsis.
pub open spec fn spec_truncated(text: Seq<char>, limit: int) -> Seq<char> {
    if text.len() <= limit {
        text
    } else {
        text.take(limit) + seq!['.', '.', '.']
    }
}

/// Shorten a quoted passage, such as a vote reason, to `limit` characters.
pub fn truncate_with_ellipsis(text: &str, limit: usize) -> (r: String)
    ensures
        r@ == spec_truncated(text@, limit as int),
{
    let n = text.unicode_len();
    if n <= limit {
        text.to_owned()
    } else {
        let head = text.substring_char(0, limit);
        let r = head.to_owned().concat("...");
        proof {
            reveal_strlit("...");
            assert("..."@ =~= seq!['.', '.', '.']);
            assert(r@ =~= spec_truncated(text@, limit as int));
        }
        r
    }
}

} // verus!
