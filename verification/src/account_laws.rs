//! How a user logs in, who they are told to be, and which profile and subscription they have.

use vstd::prelude::*;

use crate::login::{
    account_fields, already_logged_in, arn_region, chosen_sigv4, device_report, find_active,
    logout_report, method_label, profile_after, profile_items, profile_shown, requested_method,
    requested_sigv4, strategy_after, whoami, AuthMethod, EffectText, LicenseType, LoginArgs, TokenInfo,
    UserFacts, UserProfile,
};
use crate::report::Ink;
use crate::split::split_char;
use crate::subscription::{chat_positions, console_url, is_chat_kind};
use crate::text::{contains_text, option_text};
use crate::text_laws::law_split;

verus! {

/// A free license means a Builder ID, a pro license Identity Center; and without a license Identity
/// Center is meant where both its provider and its region are given.
pub proof fn law_method_of_login(args: LoginArgs)
    ensures
        args.license == Some(LicenseType::Free) ==> requested_method(args) == Some(AuthMethod::BuilderId),
        args.license == Some(LicenseType::Pro) ==> requested_method(args) == Some(
            AuthMethod::IdentityCenter,
        ),
        args.license is None ==> (requested_method(args) == Some(AuthMethod::IdentityCenter) <==> (
        args.identity_provider is Some && args.region is Some)),
        args.license is None && !(args.identity_provider is Some && args.region is Some)
            ==> requested_method(args) is None,
        method_label(AuthMethod::BuilderId) == "Use for Free with Builder ID"@,
        method_label(AuthMethod::IdentityCenter) == "Use with Pro license"@,
        method_label(AuthMethod::SigV4) == "Use with AWS credentials (SigV4)"@,
{
}

/// A login with the credentials of AWS saves that way of signing, and the profile where one is named,
/// and nothing else; it is counted once, at its end.
pub proof fn law_effects_of_sigv4(profile: Seq<char>, strategy: Option<Seq<char>>, was: Option<Seq<char>>, i: int)
    ensures
        requested_sigv4(None) == seq![
            EffectText::SaveStrategy("sigv4"@),
            EffectText::SaveStrategy("sigv4"@),
            EffectText::Print("Using SigV4 authentication with AWS credentials"@),
            EffectText::CountLogin,
        ],
        requested_sigv4(Some(profile)) == seq![
            EffectText::SaveStrategy("sigv4"@),
            EffectText::Print("Using AWS profile: "@ + profile),
            EffectText::SaveStrategy("sigv4"@),
            EffectText::SaveProfile(profile),
            EffectText::Print("Using AWS profile: "@ + profile),
            EffectText::Print("Using SigV4 authentication with AWS credentials"@),
            EffectText::CountLogin,
        ],
        profile.len() > 0 ==> chosen_sigv4(profile) == seq![
            EffectText::SaveStrategy("sigv4"@),
            EffectText::SaveProfile(profile),
            EffectText::Print("Using AWS profile: "@ + profile),
            EffectText::Print("Using SigV4 authentication with AWS credentials"@),
            EffectText::CountLogin,
        ],
        chosen_sigv4(""@) == seq![
            EffectText::SaveStrategy("sigv4"@),
            EffectText::Print("Using SigV4 authentication with AWS credentials"@),
            EffectText::CountLogin,
        ],
        requested_sigv4(None).contains(EffectText::SaveStrategy("sigv4"@)),
        requested_sigv4(Some(profile)).contains(EffectText::SaveStrategy("sigv4"@)),
        requested_sigv4(Some(profile)).contains(EffectText::SaveProfile(profile)),
        profile.len() > 0 ==> chosen_sigv4(profile).contains(EffectText::SaveProfile(profile)),
        chosen_sigv4(profile).contains(EffectText::SaveStrategy("sigv4"@)),
        requested_sigv4(None).last() is CountLogin,
        requested_sigv4(Some(profile)).last() is CountLogin,
        chosen_sigv4(profile).last() is CountLogin,
        0 <= i < requested_sigv4(None).len() ==> !(requested_sigv4(None)[i] is SaveProfile) && (
        requested_sigv4(None)[i] is CountLogin ==> i == requested_sigv4(None).len() - 1),
        0 <= i < chosen_sigv4(""@).len() ==> !(chosen_sigv4(""@)[i] is SaveProfile),
        0 <= i < chosen_sigv4(profile).len() ==> (chosen_sigv4(profile)[i] is CountLogin ==> i
            == chosen_sigv4(profile).len() - 1),
{
    reveal_strlit("");
    assert(requested_sigv4(None)[0] == EffectText::SaveStrategy("sigv4"@));
    assert(requested_sigv4(Some(profile))[0] == EffectText::SaveStrategy("sigv4"@));
    assert(requested_sigv4(Some(profile))[3] == EffectText::SaveProfile(profile));
    assert(chosen_sigv4(profile)[0] == EffectText::SaveStrategy("sigv4"@));
    if profile.len() > 0 {
        assert(chosen_sigv4(profile)[1] == EffectText::SaveProfile(profile));
    }
}

/// What is saved last counts.
pub proof fn law_last_effect_counts(effects: Seq<EffectText>, s: Seq<char>, was: Option<Seq<char>>)
    ensures
        strategy_after(seq![], was) == was,
        profile_after(seq![], was) == was,
        strategy_after(effects.push(EffectText::SaveStrategy(s)), was) == Some(s),
        profile_after(effects.push(EffectText::SaveProfile(s)), was) == Some(s),
        strategy_after(effects.push(EffectText::SaveProfile(s)), was) == strategy_after(effects, was),
        profile_after(effects.push(EffectText::SaveStrategy(s)), was) == profile_after(effects, was),
        strategy_after(effects.push(EffectText::Print(s)), was) == strategy_after(effects, was),
        profile_after(effects.push(EffectText::Print(s)), was) == profile_after(effects, was),
        strategy_after(effects.push(EffectText::CountLogin), was) == strategy_after(effects, was),
{
    assert(effects.push(EffectText::SaveProfile(s)).drop_last() =~= effects);
    assert(effects.push(EffectText::SaveStrategy(s)).drop_last() =~= effects);
    assert(effects.push(EffectText::Print(s)).drop_last() =~= effects);
    assert(effects.push(EffectText::CountLogin).drop_last() =~= effects);
}

/// Who signs with the credentials of AWS is told so whatever token there is; else the token decides,
/// and the profile is shown with Identity Center alone. Nobody is logged in without either.
pub proof fn law_who_is_logged_in(facts: UserFacts)
    ensures
        option_text(facts.strategy) == Some("sigv4"@) ==> whoami(facts).1 == Some("SigV4"@) && whoami(facts).2 is None,
        option_text(facts.strategy) != Some("sigv4"@) ==> {
            &&& facts.token is None ==> whoami(facts).1 is None && whoami(facts).0 == "Not logged in"@
            &&& facts.token matches Some(TokenInfo::BuilderId { start_url, region }) ==> whoami(facts).1
                == Some("BuilderId"@) && whoami(facts).0 == "Logged in with Builder ID"@ && whoami(
                facts,
            ).2 is None
            &&& facts.token matches Some(TokenInfo::IdentityCenter { start_url, region }) ==> whoami(
                facts,
            ).1 == Some("IamIdentityCenter"@) && whoami(facts).0 == "Logged in with IAM Identity Center ("@
                + start_url@ + ")"@ && (whoami(facts).2 is Some <==> facts.profile is Some)
        },
        whoami(facts).2 is Some ==> facts.profile is Some && whoami(facts).2 == Some(
            profile_shown(facts.profile->0),
        ),
{
}

/// Programs are told the kind of account first, with the same answer as the user.
pub proof fn law_fields_agree(facts: UserFacts)
    ensures
        whoami(facts).1 is Some ==> account_fields(facts)[0] == ("accountType"@, whoami(facts).1),
        whoami(facts).1 is None ==> account_fields(facts) == seq![("account"@, None::<Seq<char>>)],
        option_text(facts.strategy) == Some("sigv4"@) ==> account_fields(facts).len() == 2 && account_fields(
            facts,
        )[1] == ("awsProfile"@, option_text(facts.aws_profile)),
        option_text(facts.strategy) != Some("sigv4"@) ==> {
            &&& facts.token matches Some(TokenInfo::BuilderId { start_url, region }) ==> account_fields(
                facts,
            ).len() == 3 && account_fields(facts)[1] == ("startUrl"@, option_text(start_url))
                && account_fields(facts)[2] == ("region"@, option_text(region))
            &&& facts.token matches Some(TokenInfo::IdentityCenter { start_url, region })
                ==> account_fields(facts).len() == 3 && account_fields(facts)[1] == (
                "startUrl"@,
                Some(start_url@),
            ) && account_fields(facts)[2] == ("region"@, option_text(region))
        },
{
}

/// A profile is shown by its name and its identifier, each on a line of its own, under a bold
/// heading.
pub proof fn law_profile_is_shown(p: UserProfile)
    ensures
        profile_shown(p) == seq![
            (Ink::Plain, false, "\n"@),
            (Ink::Plain, true, "Profile:"@),
            (Ink::Plain, false, "\n"@ + p.profile_name@ + "\n"@ + p.arn@ + "\n\n"@),
        ],
{
}

/// The region of a profile is the fourth of the parts of its identifier between colons.
pub proof fn law_region_of_profile(
    a: Seq<char>,
    b: Seq<char>,
    c: Seq<char>,
    region: Seq<char>,
    rest: Seq<char>,
)
    requires
        !a.contains(':'),
        !b.contains(':'),
        !c.contains(':'),
        !region.contains(':'),
    ensures
        arn_region(a + seq![':'] + (b + seq![':'] + (c + seq![':'] + (region + seq![':'] + rest)))) == Some(
            region,
        ),
        arn_region(a + seq![':'] + (b + seq![':'] + (c + seq![':'] + region))) == Some(region),
        arn_region(a + seq![':'] + (b + seq![':'] + c)) is None,
        arn_region(a) is None,
{
    let r1 = region + seq![':'] + rest;
    let c1 = c + seq![':'] + r1;
    let b1 = b + seq![':'] + c1;
    law_split(region, ':', rest);
    law_split(c, ':', r1);
    law_split(b, ':', c1);
    law_split(a, ':', b1);
    let c2 = c + seq![':'] + region;
    law_split(c, ':', region);
    let b2 = b + seq![':'] + c2;
    law_split(b, ':', c2);
    law_split(a, ':', b2);
    law_split(b, ':', c);
    law_split(a, ':', b + seq![':'] + c);
    let parts = split_char(a + seq![':'] + b1, ':');
    assert(parts =~= seq![a, b, c, region] + split_char(rest, ':'));
    let fewer = split_char(a + seq![':'] + b2, ':');
    assert(fewer =~= seq![a, b, c, region]);
    assert(split_char(a + seq![':'] + (b + seq![':'] + c), ':') =~= seq![a, b, c]);
}

/// The profiles are offered by name and identifier, and the first one with the identifier of the
/// active profile is marked.
pub proof fn law_profiles_are_offered(
    profiles: Seq<(Seq<char>, Seq<char>)>,
    active: Option<Seq<char>>,
    i: int,
)
    requires
        0 <= i < profiles.len(),
    ensures
        profile_items(profiles, active).len() == profiles.len(),
        (active == Some(profiles[i].1) && forall|j: int| 0 <= j < i ==> active != Some((#[trigger] profiles[j]).1))
            ==> profile_items(profiles, active)[i] == profiles[i].0 + " (arn: "@ + profiles[i].1 + ")"@
            + " (active)"@,
        active != Some(profiles[i].1) ==> profile_items(profiles, active)[i] == profiles[i].0 + " (arn: "@
            + profiles[i].1 + ")"@,
{
    lemma_active(profiles, active, 0);
}

proof fn lemma_active(profiles: Seq<(Seq<char>, Seq<char>)>, active: Option<Seq<char>>, from: int)
    requires
        0 <= from <= profiles.len(),
    ensures
        from <= find_active(profiles, active, from) <= profiles.len(),
        forall|i: int|
            from <= i < find_active(profiles, active, from) ==> active != Some((#[trigger] profiles[i]).1),
        find_active(profiles, active, from) < profiles.len() ==> active == Some(
            profiles[find_active(profiles, active, from)].1,
        ),
    decreases profiles.len() - from,
{
    if from < profiles.len() && active != Some(profiles[from].1) {
        lemma_active(profiles, active, from + 1);
    }
}

/// What is said where somebody is logged in already, for a code, and after a logout.
pub proof fn law_login_texts(binary: Seq<char>, code: Seq<char>, product: Seq<char>)
    ensures
        already_logged_in(binary) == seq![
            (Ink::Plain, false, "Already logged in, please logout with "@),
            (Ink::Magenta, false, binary + " logout"@),
            (Ink::Plain, false, " first"@),
        ],
        device_report(code) == seq![
            (Ink::Plain, false, "\nConfirm the following code in the browser\nCode: "@),
            (Ink::Plain, true, code),
            (Ink::Plain, false, "\n\n"@),
        ],
        logout_report(binary, product) == seq![
            (Ink::Plain, false, "You are now logged out\nRun "@),
            (Ink::Magenta, false, binary + " login"@),
            (Ink::Plain, false, " to log back in to "@ + product + "\n"@),
        ],
{
}

/// A user of Identity Center manages subscriptions on the page of their region, whatever came of
/// asking for a link; the region is the first one of the east where none is known.
pub proof fn law_page_of_identity_center(
    start_url: String,
    region: Option<String>,
    link: Result<Seq<char>, Seq<char>>,
)
    ensures
        console_url(Some(TokenInfo::IdentityCenter { start_url, region }), link) == Ok::<
            Seq<char>,
            Seq<char>,
        >(
            "https://"@ + (match region {
                Some(r) => r@,
                None => "us-east-1"@,
            }) + ".console.aws.amazon.com/amazonq/developer/home#/subscriptions"@,
        ),
{
}

/// Any other user follows the link; where there is a subscription already the page of their region,
/// or the page on upgrades, takes its place, and every other error is told.
pub proof fn law_page_of_others(token: Option<TokenInfo>, url: Seq<char>, e: Seq<char>)
    requires
        !(token matches Some(TokenInfo::IdentityCenter { start_url, region })),
    ensures
        console_url(token, Ok(url)) == Ok::<Seq<char>, Seq<char>>(url),
        !contains_text(e, "ConflictException"@) ==> console_url(token, Err(e)) == Err::<Seq<char>, Seq<char>>(
            e,
        ),
        contains_text(e, "ConflictException"@) ==> console_url(token, Err(e)) == Ok::<Seq<char>, Seq<char>>(
            match token {
                Some(TokenInfo::BuilderId { start_url, region: Some(r) }) => "https://"@ + r@
                    + ".console.aws.amazon.com/amazonq/developer/home#/subscriptions"@,
                _ => "https://docs.aws.amazon.com/console/amazonq/upgrade-builder-id"@,
            },
        ),
{
}

/// The limits of the chat are those whose kind is `chat`, in small or large letters, in order.
pub proof fn law_limits_of_the_chat(kinds: Seq<Seq<char>>, one: Seq<char>)
    ensures
        is_chat_kind("chat"@),
        is_chat_kind("CHAT"@),
        is_chat_kind("Chat"@),
        is_chat_kind(one) ==> one.len() == 4 && (one[0] == 'c' || one[0] == 'C') && (one[1] == 'h' || one[1]
            == 'H') && (one[2] == 'a' || one[2] == 'A') && (one[3] == 't' || one[3] == 'T'),
        chat_positions(seq![], 0).len() == 0,
        chat_positions(kinds.push(one), kinds.len() as int + 1) == if is_chat_kind(one) {
            chat_positions(kinds, kinds.len() as int).push(kinds.len() as int)
        } else {
            chat_positions(kinds, kinds.len() as int)
        },
{
    reveal_strlit("chat");
    reveal_strlit("CHAT");
    reveal_strlit("Chat");
    lemma_positions_prefix(kinds, one, kinds.len() as int);
}

proof fn lemma_positions_prefix(kinds: Seq<Seq<char>>, one: Seq<char>, n: int)
    requires
        0 <= n <= kinds.len(),
    ensures
        chat_positions(kinds.push(one), n) == chat_positions(kinds, n),
    decreases n,
{
    if n > 0 {
        lemma_positions_prefix(kinds, one, n - 1);
    }
}

} // verus!
