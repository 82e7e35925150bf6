//! Subscriptions of a user.

use vstd::prelude::*;

use crate::env_expansion::text_result;
use crate::login::TokenInfo;
use crate::text::{cat3, chars_of, contains_text, option_text, str_contains, texts};

verus! {

/// The level of a subscription.
#[derive(Debug, Clone, Copy, PartialEq, Eq, Structural)]
pub enum SubscriptionTier {
    /// Free of charge.
    Free,
    /// With all that is offered.
    Pro,
    /// About to end.
    Expiring,
}

/// What is known of a subscription.
#[derive(Debug, Clone, Copy, PartialEq, Eq, Structural)]
pub struct SubscriptionStatusInfo {
    /// Its level.
    pub tier: SubscriptionTier,
}

/// The subscription of a user with that token: Identity Center stands for a subscription, anything
/// else for none.
pub fn get_subscription_status(token: &Option<TokenInfo>) -> (res: SubscriptionStatusInfo)
    ensures
        res.tier == match token {
            Some(TokenInfo::IdentityCenter { .. }) => SubscriptionTier::Pro,
            _ => SubscriptionTier::Free,
        },
{
    match token {
        Some(TokenInfo::IdentityCenter { start_url: _, region: _ }) => SubscriptionStatusInfo {
            tier: SubscriptionTier::Pro,
        },
        _ => SubscriptionStatusInfo { tier: SubscriptionTier::Free },
    }
}

/// The page of subscriptions in a region.
pub open spec fn console_page(region: Seq<char>) -> Seq<char> {
    "https://"@ + region + ".console.aws.amazon.com/amazonq/developer/home#/subscriptions"@
}

fn console_page_text(region: &str) -> (res: String)
    ensures
        res@ == console_page(region@),
{
    cat3("https://", region, ".console.aws.amazon.com/amazonq/developer/home#/subscriptions")
}

/// The region of a token.
pub open spec fn token_region(token: Option<TokenInfo>) -> Option<Seq<char>> {
    match token {
        Some(TokenInfo::BuilderId { region, .. }) => option_text(region),
        Some(TokenInfo::IdentityCenter { region, .. }) => option_text(region),
        None => None,
    }
}

/// The page on which a user of Identity Center manages subscriptions.
pub open spec fn own_page(token: Option<TokenInfo>) -> Option<Seq<char>> {
    match token {
        Some(TokenInfo::IdentityCenter { .. }) => Some(
            console_page(
                match token_region(token) {
                    Some(r) => r,
                    None => "us-east-1"@,
                },
            ),
        ),
        _ => None,
    }
}

/// Where a user of Identity Center manages subscriptions; others need a link of their own.
pub fn console_url_of(token: &Option<TokenInfo>) -> (res: Option<String>)
    ensures
        option_text(res) == own_page(*token),
{
    match token {
        Some(TokenInfo::IdentityCenter { start_url: _, region }) => {
            let r: &str = match region {
                Some(r) => r.as_str(),
                None => "us-east-1",
            };
            Some(console_page_text(r))
        },
        _ => None,
    }
}

/// Where a user manages subscriptions, where `link` is what came of asking for a link: one of
/// Identity Center on the page of the region; another one at the link, or, where there is a
/// subscription already, on the page of the region or the page on upgrades.
pub open spec fn console_url(
    token: Option<TokenInfo>,
    link: Result<Seq<char>, Seq<char>>,
) -> Result<Seq<char>, Seq<char>> {
    match own_page(token) {
        Some(page) => Ok(page),
        None => match link {
            Ok(url) => Ok(url),
            Err(e) => if contains_text(e, "ConflictException"@) {
                Ok(
                    match token_region(token) {
                        Some(r) => console_page(r),
                        None => "https://docs.aws.amazon.com/console/amazonq/upgrade-builder-id"@,
                    },
                )
            } else {
                Err(e)
            },
        },
    }
}

/// Where a user manages subscriptions, where `link` is what came of asking for a link. A user of
/// Identity Center needs none: see [`console_url_of`].
pub fn generate_console_url(token: &Option<TokenInfo>, link: Result<String, String>) -> (res: Result<
    String,
    String,
>)
    ensures
        text_result(res) == console_url(*token, text_result(link)),
{
    if let Some(page) = console_url_of(token) {
        return Ok(page);
    }
    match link {
        Ok(url) => Ok(url),
        Err(e) => {
            if str_contains(e.as_str(), "ConflictException") {
                match token {
                    Some(TokenInfo::BuilderId { start_url: _, region: Some(r) }) => Ok(
                        console_page_text(r.as_str()),
                    ),
                    _ => Ok(
                        String::from_str(
                            "https://docs.aws.amazon.com/console/amazonq/upgrade-builder-id",
                        ),
                    ),
                }
            } else {
                Err(e)
            }
        },
    }
}

/// Whether a kind of limit is about the chat: it is `chat` in small or large letters.
pub open spec fn is_chat_kind(kind: Seq<char>) -> bool {
    &&& kind.len() == 4
    &&& kind[0] == 'c' || kind[0] == 'C'
    &&& kind[1] == 'h' || kind[1] == 'H'
    &&& kind[2] == 'a' || kind[2] == 'A'
    &&& kind[3] == 't' || kind[3] == 'T'
}

/// The positions of the limits, of the first `n`, that are about the chat.
pub open spec fn chat_positions(kinds: Seq<Seq<char>>, n: int) -> Seq<int>
    decreases n,
{
    if n <= 0 {
        seq![]
    } else if is_chat_kind(kinds[n - 1]) {
        chat_positions(kinds, n - 1).push(n - 1)
    } else {
        chat_positions(kinds, n - 1)
    }
}

fn is_chat(kind: &str) -> (res: bool)
    ensures
        res == is_chat_kind(kind@),
{
    let v = chars_of(kind);
    v.len() == 4 && (v[0] == 'c' || v[0] == 'C') && (v[1] == 'h' || v[1] == 'H') && (v[2] == 'a' || v[2]
        == 'A') && (v[3] == 't' || v[3] == 'T')
}

/// The positions of the usage limits that are about the chat, by their kinds.
pub fn chat_limits(kinds: &Vec<String>) -> (res: Vec<usize>)
    ensures
        Seq::new(res@.len(), |i: int| res@[i] as int) == chat_positions(
            texts(kinds@),
            kinds@.len() as int,
        ),
{
    let ghost ks = texts(kinds@);
    let mut out: Vec<usize> = Vec::new();
    let mut i: usize = 0;
    assert(Seq::new(out@.len(), |i: int| out@[i] as int) =~= chat_positions(ks, 0));
    while i < kinds.len()
        invariant
            i <= kinds@.len(),
            ks == texts(kinds@),
            Seq::new(out@.len(), |i: int| out@[i] as int) == chat_positions(ks, i as int),
        decreases kinds@.len() - i,
    {
        let ghost before = Seq::new(out@.len(), |i: int| out@[i] as int);
        assert(ks[i as int] == kinds@[i as int]@);
        if is_chat(kinds[i].as_str()) {
            out.push(i);
            assert(Seq::new(out@.len(), |i: int| out@[i] as int) =~= before.push(i as int));
        }
        i += 1;
    }
    out
}

} // verus!
