//! The Meta Gov feed: the configuration of its fetch collaborator and the
//! parsing of its proposal titles.
//!
//! Upstream titles carry the proposal number in the text, in the shape
//! `{number}: {title}`; the handlers split that apart before rendering.

use vstd::prelude::*;
use vstd::string::StrSliceExecFns;

verus! {

/// Where the feed's GraphQL endpoint listens, and which space it reads.
pub struct GraphQLFetcher {
    graphql_url: String,
    space_id: String,
}

/// The mathematical value of a [`GraphQLFetcher`] configuration.
pub ghost struct FetcherView {
    pub graphql_url: Seq<char>,
    pub space_id: Seq<char>,
}

impl View for GraphQLFetcher {
    type V = FetcherView;

    closed spec fn view(&self) -> FetcherView {
        FetcherView { graphql_url: self.graphql_url@, space_id: self.space_id@ }
    }
}

impl GraphQLFetcher {
    pub fn new(graphql_url: String, space_id: String) -> (f: GraphQLFetcher)
        ensures
            f@.graphql_url == graphql_url@,
            f@.space_id == space_id@,
    {
        GraphQLFetcher { graphql_url, space_id }
    }

    /// The configured endpoint.
    pub fn graphql_url(&self) -> (r: &String)
        ensures
            r@ == self@.graphql_url,
    {
        &self.graphql_url
    }

    /// The configured space.
    pub fn space_id(&self) -> (r: &String)
        ensures
            r@ == self@.space_id,
    {
        &self.space_id
    }
}

/// Is `c` a decimal digit?
pub open spec fn is_digit(c: char) -> bool {
    '0' <= c <= '9'
}

/// The value of a digit sequence read as a decimal number.
pub open spec fn digits_val(s: Seq<char>) -> int
    decreases s.len(),
{
    if s.len() == 0 {
        0
    } else {
        digits_val(s.drop_last()) * 10 + (s.last() as int - '0' as int)
    }
}

/// The end of the digit run starting at `p`: the first position at or after
/// `p` holding no digit, or the end of the title.
pub open spec fn run_end(s: Seq<char>, p: int) -> int
    decreases s.len() - p,
{
    if p < 0 || p >= s.len() || !is_digit(s[p]) {
        p
    } else {
        run_end(s, p + 1)
    }
}

/// Does a proposal-number match start at position `p`: a digit run followed
/// by `": "` and at least one further character?
pub open spec fn match_at(s: Seq<char>, p: int) -> bool {
    &&& 0 <= p < s.len()
    &&& is_digit(s[p])
    &&& run_end(s, p) + 2 < s.len()
    &&& s[run_end(s, p)] == ':'
    &&& s[run_end(s, p) + 1] == ' '
}

/// The first position from `p` on where a match starts, if any. A digit run
/// whose end is not followed by `": "` fails at each of its positions alike,
/// so taking the first matching position gives the leftmost match.
pub open spec fn first_match(s: Seq<char>, p: int) -> Option<int>
    decreases s.len() - p,
{
    if p < 0 || p >= s.len() {
        None
    } else if match_at(s, p) {
        Some(p)
    } else {
        first_match(s, p + 1)
    }
}

/// What `extract_proposal_info` returns on a title: the number of the first
/// proposal-number match, provided it fits `u32`, and the rest of the title
/// after the `": "`.
pub open spec fn spec_proposal_info(s: Seq<char>) -> Option<(u32, Seq<char>)> {
    match first_match(s, 0) {
        None => None,
        Some(p) => {
            let e = run_end(s, p);
            if digits_val(s.subrange(p, e)) <= u32::MAX {
                Some((digits_val(s.subrange(p, e)) as u32, s.skip(e + 2)))
            } else {
                None
            }
        },
    }
}

/// Split a Meta Gov title of the shape `{number}: {title}` into the two
/// parts. `None` when no such shape occurs in the title, and also when the
/// number overflows `u32`, as the original numbers never do.
pub fn extract_proposal_info(title: &str) -> (r: Option<(u32, String)>)
    ensures
        match r {
            Some((id, rest)) => spec_proposal_info(title@) == Some((id, rest@)),
            None => spec_proposal_info(title@) is None,
        },
{
    let n = title.unicode_len();
    let mut p: usize = 0;
    while p < n
        invariant
            0 <= p <= n,
            n == title@.len(),
            first_match(title@, 0) == first_match(title@, p as int),
        decreases n - p,
    {
        if !is_digit_char(title.get_char(p)) {
            proof {
                assert(!match_at(title@, p as int));
            }
            p = p + 1;
        } else {
            // Scan the digit run that starts here, accumulating its value.
            let mut e: usize = p;
            let mut value: u32 = 0;
            let mut overflowed: bool = false;
            while e < n && is_digit_char(title.get_char(e))
                invariant
                    p <= e <= n,
                    n == title@.len(),
                    p < n,
                    forall|k: int| p <= k < e ==> is_digit(#[trigger] title@[k]),
                    run_end(title@, p as int) == run_end(title@, e as int),
                    !overflowed ==> value == digits_val(title@.subrange(p as int, e as int)),
                    overflowed ==> digits_val(title@.subrange(p as int, e as int)) > u32::MAX,
                decreases n - e,
            {
                let d = digit_value(title.get_char(e));
                let ghost prior = digits_val(title@.subrange(p as int, e as int));
                proof {
                    let sub = title@.subrange(p as int, e + 1);
                    assert(sub.drop_last() =~= title@.subrange(p as int, e as int));
                    assert(sub.last() == title@[e as int]);
                    assert(digits_val(sub) == prior * 10 + (title@[e as int] as int - '0' as int));
                }
                if overflowed {
                    proof {
                        assert(prior * 10 >= prior) by (nonlinear_arith)
                            requires
                                prior >= 0,
                        ;
                    }
                } else if value > (u32::MAX - d as u32) / 10 {
                    overflowed = true;
                    proof {
                        assert(prior * 10 + d as int > u32::MAX) by (nonlinear_arith)
                            requires
                                prior == value as int,
                                value > (u32::MAX - d as u32) / 10,
                                d <= 9,
                        ;
                    }
                } else {
                    proof {
                        assert(prior * 10 + d as int <= u32::MAX) by (nonlinear_arith)
                            requires
                                prior == value as int,
                                value <= (u32::MAX - d as u32) / 10,
                                d <= 9,
                        ;
                    }
                    value = value * 10 + d as u32;
                }
                e = e + 1;
            }
            proof {
                assert(run_end(title@, e as int) == e as int);
                assert(run_end(title@, p as int) == e as int);
            }
            // The run [p, e) is maximal; a match needs `": "` and at least
            // one further character after it.
            if n - e > 2 && title.get_char(e) == ':' && title.get_char(e + 1) == ' ' {
                proof {
                    assert(match_at(title@, p as int));
                    assert(first_match(title@, p as int) == Some(p as int));
                }
                if overflowed {
                    return None;
                }
                let rest = title.substring_char(e + 2, n);
                proof {
                    assert(rest@ =~= title@.skip(e + 2));
                }
                return Some((value, rest.to_owned()));
            }
            proof {
                assert(!match_at(title@, p as int));
                assert forall|k: int| p <= k < e implies !(#[trigger] match_at(title@, k)) by {
                    lemma_run_end_within(title@, k, e as int);
                }
                lemma_first_match_skip_run(title@, p as int, e as int);
            }
            // Every position inside the failed run fails alike; continue
            // after it. The run is nonempty, so the loop makes progress.
            p = e;
        }
    }
    proof {
        assert(first_match(title@, n as int) is None);
    }
    None
}

/// Is `c` a decimal digit?
fn is_digit_char(c: char) -> (r: bool)
    ensures
        r == is_digit(c),
{
    c >= '0' && c <= '9'
}

/// The decimal value of a digit character.
fn digit_value(c: char) -> (d: u8)
    requires
        is_digit(c),
    ensures
        d == c as int - '0' as int,
        d <= 9,
{
    (c as u32 - '0' as u32) as u8
}

/// Positions at which no match starts do not change the first match.
proof fn lemma_first_match_skip_run(s: Seq<char>, p: int, e: int)
    requires
        0 <= p <= e <= s.len(),
        forall|k: int| p <= k < e ==> !(#[trigger] match_at(s, k)),
    ensures
        first_match(s, p) == first_match(s, e),
    decreases e - p,
{
    if p < e {
        lemma_first_match_skip_run(s, p + 1, e);
    }
}

/// Within a digit run ending at `e`, `run_end` from any inner position is
/// `e`.
proof fn lemma_run_end_within(s: Seq<char>, p: int, e: int)
    requires
        0 <= p <= e <= s.len(),
        forall|k: int| p <= k < e ==> is_digit(#[trigger] s[k]),
        run_end(s, e) == e,
    ensures
        run_end(s, p) == e,
    decreases e - p,
{
    if p < e {
        lemma_run_end_within(s, p + 1, e);
    }
}

} // verus!
