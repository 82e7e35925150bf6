//! Logging in and out: how a login goes, which profile is used, and who is logged in.

use vstd::prelude::*;

use crate::report::{bold, inked, Ink, Report, SpanText};
use crate::split::{split_char, split_on};
use crate::text::{
    cat2, cat3, cat4, cat5, copy_option, option_text, same_text, texts,
};

verus! {

/// How requests are signed.
#[derive(Debug, Clone, Copy, PartialEq, Eq, Structural)]
pub enum AuthStrategy {
    /// By the credentials of AWS.
    SigV4,
    /// By a token.
    BearerToken,
    /// By what is found.
    Auto,
}

impl Default for AuthStrategy {
    fn default() -> (res: Self)
        ensures
            res == AuthStrategy::BearerToken,
    {
        AuthStrategy::BearerToken
    }
}

/// The license of a user.
#[derive(Debug, Clone, Copy, PartialEq, Eq, Structural)]
pub enum LicenseType {
    /// Free, with a Builder ID.
    Free,
    /// Pro, with Identity Center.
    Pro,
}

/// How a user logs in.
#[derive(Debug, Clone, Copy, PartialEq, Eq, Structural)]
pub enum AuthMethod {
    /// With a Builder ID.
    BuilderId,
    /// With Identity Center.
    IdentityCenter,
    /// With the credentials of AWS.
    SigV4,
}

/// How a method is offered.
pub open spec fn method_label(m: AuthMethod) -> Seq<char> {
    match m {
        AuthMethod::BuilderId => "Use for Free with Builder ID"@,
        AuthMethod::IdentityCenter => "Use with Pro license"@,
        AuthMethod::SigV4 => "Use with AWS credentials (SigV4)"@,
    }
}

impl AuthMethod {
    /// How the method is offered.
    pub fn label(&self) -> (res: &'static str)
        ensures
            res@ == method_label(*self),
    {
        match self {
            AuthMethod::BuilderId => "Use for Free with Builder ID",
            AuthMethod::IdentityCenter => "Use with Pro license",
            AuthMethod::SigV4 => "Use with AWS credentials (SigV4)",
        }
    }
}

/// What a login is asked for.
#[derive(Debug, PartialEq, Eq)]
pub struct LoginArgs {
    /// The license.
    pub license: Option<LicenseType>,
    /// The URL of the identity provider.
    pub identity_provider: Option<String>,
    /// The region of the identity provider.
    pub region: Option<String>,
    /// Use a code that is confirmed on some device.
    pub use_device_flow: bool,
    /// How requests are to be signed.
    pub auth_strategy: Option<AuthStrategy>,
    /// The profile of AWS.
    pub aws_profile: Option<String>,
}

impl Default for LoginArgs {
    fn default() -> (res: Self)
        ensures
            res.license is None,
            res.identity_provider is None,
            res.region is None,
            !res.use_device_flow,
            res.auth_strategy is None,
            res.aws_profile is None,
    {
        LoginArgs {
            license: None,
            identity_provider: None,
            region: None,
            use_device_flow: false,
            auth_strategy: None,
            aws_profile: None,
        }
    }
}

/// Something that a login does.
#[derive(Debug, PartialEq, Eq)]
pub enum LoginEffect {
    /// The way of signing is saved under this name.
    SaveStrategy(String),
    /// The profile of AWS is saved.
    SaveProfile(String),
    /// A line is printed.
    Print(String),
    /// The login is counted.
    CountLogin,
}

/// What an effect says.
pub enum EffectText {
    SaveStrategy(Seq<char>),
    SaveProfile(Seq<char>),
    Print(Seq<char>),
    CountLogin,
}

impl View for LoginEffect {
    type V = EffectText;

    open spec fn view(&self) -> EffectText {
        match self {
            LoginEffect::SaveStrategy(s) => EffectText::SaveStrategy(s@),
            LoginEffect::SaveProfile(s) => EffectText::SaveProfile(s@),
            LoginEffect::Print(s) => EffectText::Print(s@),
            LoginEffect::CountLogin => EffectText::CountLogin,
        }
    }
}

/// What a list of effects says.
pub open spec fn effect_list(v: Seq<LoginEffect>) -> Seq<EffectText> {
    Seq::new(v.len(), |i: int| v[i]@)
}

/// How a login goes on.
#[derive(Debug)]
pub enum LoginStep {
    /// It is refused with this text.
    Refuse(Report),
    /// It is done once these effects are.
    Finish(Vec<LoginEffect>),
    /// It goes on with this method.
    Use(AuthMethod),
    /// The user is asked for the method.
    AskMethod,
}

/// What is said to a user who is logged in.
pub open spec fn already_logged_in(binary: Seq<char>) -> Seq<SpanText> {
    seq![
        inked(Ink::Plain, "Already logged in, please logout with "@),
        inked(Ink::Magenta, binary + " logout"@),
        inked(Ink::Plain, " first"@),
    ]
}

/// What is done where the credentials of AWS were asked for by name. The profile is told twice:
/// when it is read and when it is saved.
pub open spec fn requested_sigv4(profile: Option<Seq<char>>) -> Seq<EffectText> {
    let save = seq![EffectText::SaveStrategy("sigv4"@)];
    let end = seq![
        EffectText::Print("Using SigV4 authentication with AWS credentials"@),
        EffectText::CountLogin,
    ];
    match profile {
        Some(p) => save + seq![EffectText::Print("Using AWS profile: "@ + p)] + save + seq![
            EffectText::SaveProfile(p),
            EffectText::Print("Using AWS profile: "@ + p),
        ] + end,
        None => save + save + end,
    }
}

/// What is done where the credentials of AWS were chosen; an empty profile counts as none.
pub open spec fn chosen_sigv4(profile: Seq<char>) -> Seq<EffectText> {
    seq![EffectText::SaveStrategy("sigv4"@)] + (if profile.len() > 0 {
        seq![
            EffectText::SaveProfile(profile),
            EffectText::Print("Using AWS profile: "@ + profile),
        ]
    } else {
        seq![]
    }) + seq![
        EffectText::Print("Using SigV4 authentication with AWS credentials"@),
        EffectText::CountLogin,
    ]
}

/// The method that the arguments ask for: that of the license; Identity Center where its provider
/// and region are given; else none.
pub open spec fn requested_method(args: LoginArgs) -> Option<AuthMethod> {
    match args.license {
        Some(LicenseType::Free) => Some(AuthMethod::BuilderId),
        Some(LicenseType::Pro) => Some(AuthMethod::IdentityCenter),
        None => if args.identity_provider is Some && args.region is Some {
            Some(AuthMethod::IdentityCenter)
        } else {
            None
        },
    }
}

/// How a user is authorised.
#[derive(Debug, Clone, Copy, PartialEq, Eq, Structural)]
pub enum LoginFlow {
    /// By a code that is confirmed on some device.
    Device,
    /// By the browser of this machine.
    Browser,
}

/// What comes after an authorisation.
#[derive(Debug, Clone, Copy, PartialEq, Eq, Structural)]
pub enum AfterLogin {
    /// The way of signing is saved as that of a token.
    SaveBearer,
    /// A profile is selected.
    SelectProfile,
    /// Nothing.
    Nothing,
}

impl LoginArgs {
    /// Starts a login.
    pub fn execute(&self, logged_in: bool, binary: &str) -> (res: LoginStep)
        ensures
            if logged_in {
                res matches LoginStep::Refuse(r) && r@ == already_logged_in(binary@)
            } else if self.auth_strategy == Some(AuthStrategy::SigV4) {
                res matches LoginStep::Finish(e) && effect_list(e@) == requested_sigv4(
                    option_text(self.aws_profile),
                )
            } else {
                match requested_method(*self) {
                    Some(m) => res matches LoginStep::Use(x) && x == m,
                    None => res is AskMethod,
                }
            },
    {
        if logged_in {
            let mut out = Report::new();
            out.say(Ink::Plain, "Already logged in, please logout with ");
            let command = cat2(binary, " logout");
            out.say(Ink::Magenta, command.as_str());
            out.say(Ink::Plain, " first");
            assert(out@ =~= already_logged_in(binary@));
            return LoginStep::Refuse(out);
        }
        if let Some(AuthStrategy::SigV4) = self.auth_strategy {
            let mut out: Vec<LoginEffect> = Vec::new();
            out.push(LoginEffect::SaveStrategy(String::from_str("sigv4")));
            if let Some(p) = &self.aws_profile {
                out.push(LoginEffect::Print(cat2("Using AWS profile: ", p.as_str())));
            }
            out.push(LoginEffect::SaveStrategy(String::from_str("sigv4")));
            if let Some(p) = &self.aws_profile {
                out.push(LoginEffect::SaveProfile(String::from_str(p.as_str())));
                out.push(LoginEffect::Print(cat2("Using AWS profile: ", p.as_str())));
            }
            out.push(
                LoginEffect::Print(String::from_str("Using SigV4 authentication with AWS credentials")),
            );
            out.push(LoginEffect::CountLogin);
            assert(effect_list(out@) =~= requested_sigv4(option_text(self.aws_profile)));
            return LoginStep::Finish(out);
        }
        match self.license {
            Some(LicenseType::Free) => LoginStep::Use(AuthMethod::BuilderId),
            Some(LicenseType::Pro) => LoginStep::Use(AuthMethod::IdentityCenter),
            None => {
                if self.identity_provider.is_some() && self.region.is_some() {
                    LoginStep::Use(AuthMethod::IdentityCenter)
                } else {
                    LoginStep::AskMethod
                }
            },
        }
    }

    /// The method that a user chose from those that are offered: a Builder ID, Identity Center, and
    /// the credentials of AWS.
    pub fn chosen_method(&self, choice: Option<usize>) -> (res: Result<AuthMethod, String>)
        requires
            choice matches Some(i) ==> i < 3,
        ensures
            match choice {
                None => res matches Err(e) && e@ == "No login method selected"@,
                Some(i) => res matches Ok(m) && m == (if i == 0 {
                    AuthMethod::BuilderId
                } else if i == 1 {
                    AuthMethod::IdentityCenter
                } else {
                    AuthMethod::SigV4
                }),
            },
    {
        match choice {
            None => Err(String::from_str("No login method selected")),
            Some(i) => {
                if i == 0 {
                    Ok(AuthMethod::BuilderId)
                } else if i == 1 {
                    Ok(AuthMethod::IdentityCenter)
                } else {
                    Ok(AuthMethod::SigV4)
                }
            },
        }
    }

    /// What is done where the credentials of AWS were chosen, with the profile of the arguments, or,
    /// where they hold none, what the user entered.
    pub fn finish_sigv4(&self, entered: &str) -> (res: Vec<LoginEffect>)
        ensures
            effect_list(res@) == chosen_sigv4(
                match option_text(self.aws_profile) {
                    Some(p) => p,
                    None => entered@,
                },
            ),
    {
        let profile: &str = match &self.aws_profile {
            Some(p) => p.as_str(),
            None => entered,
        };
        let mut out: Vec<LoginEffect> = Vec::new();
        out.push(LoginEffect::SaveStrategy(String::from_str("sigv4")));
        proof {
            crate::complete::lemma_bytes_nonempty(profile@);
        }
        if crate::number::bytes_in(profile) > 0 {
            out.push(LoginEffect::SaveProfile(String::from_str(profile)));
            out.push(LoginEffect::Print(cat2("Using AWS profile: ", profile)));
        }
        out.push(
            LoginEffect::Print(String::from_str("Using SigV4 authentication with AWS credentials")),
        );
        out.push(LoginEffect::CountLogin);
        assert(effect_list(out@) =~= chosen_sigv4(profile@));
        out
    }

    /// What is proposed as the start URL and the region: those of the arguments, or else those of
    /// the last login.
    pub fn identity_defaults(&self, last_url: &Option<String>, last_region: &Option<String>) -> (res: (
        Option<String>,
        Option<String>,
    ))
        ensures
            option_text(res.0) == if self.identity_provider is Some {
                option_text(self.identity_provider)
            } else {
                option_text(*last_url)
            },
            option_text(res.1) == if self.region is Some {
                option_text(self.region)
            } else {
                option_text(*last_region)
            },
    {
        let url = match &self.identity_provider {
            Some(u) => Some(String::from_str(u.as_str())),
            None => copy_option(last_url),
        };
        let region = match &self.region {
            Some(r) => Some(String::from_str(r.as_str())),
            None => copy_option(last_region),
        };
        (url, region)
    }

    /// How the user is authorised: a machine without a browser of its own needs a code.
    pub fn flow(&self, remote: bool) -> (res: LoginFlow)
        ensures
            res == if remote || self.use_device_flow {
                LoginFlow::Device
            } else {
                LoginFlow::Browser
            },
    {
        if remote || self.use_device_flow {
            LoginFlow::Device
        } else {
            LoginFlow::Browser
        }
    }
}

/// How the authorisation goes on after an attempt to open the browser: where that fails a code is
/// used.
pub fn flow_after_open(opened: bool) -> (res: LoginFlow)
    ensures
        res == if opened {
            LoginFlow::Browser
        } else {
            LoginFlow::Device
        },
{
    if opened {
        LoginFlow::Browser
    } else {
        LoginFlow::Device
    }
}

/// What comes after an authorisation.
pub fn after_login(method: AuthMethod) -> (res: AfterLogin)
    ensures
        res == match method {
            AuthMethod::BuilderId => AfterLogin::SaveBearer,
            AuthMethod::IdentityCenter => AfterLogin::SelectProfile,
            AuthMethod::SigV4 => AfterLogin::Nothing,
        },
{
    match method {
        AuthMethod::BuilderId => AfterLogin::SaveBearer,
        AuthMethod::IdentityCenter => AfterLogin::SelectProfile,
        AuthMethod::SigV4 => AfterLogin::Nothing,
    }
}

/// How many seconds pass between two questions whether a code was confirmed.
pub fn poll_seconds(interval: i32) -> (res: u64)
    ensures
        res == if interval >= 0 {
            interval as int
        } else {
            1
        },
{
    if interval >= 0 {
        interval as u64
    } else {
        1
    }
}

/// What is printed for a login by a code.
pub open spec fn device_report(code: Seq<char>) -> Seq<SpanText> {
    seq![
        inked(Ink::Plain, "\nConfirm the following code in the browser\nCode: "@),
        bold(Ink::Plain, code),
        inked(Ink::Plain, "\n\n"@),
    ]
}

/// What is printed for a login by a code.
pub fn report_device(code: &str) -> (res: Report)
    ensures
        res@ == device_report(code@),
{
    let mut out = Report::new();
    out.say(Ink::Plain, "\nConfirm the following code in the browser\nCode: ");
    out.say_bold(Ink::Plain, code);
    out.say(Ink::Plain, "\n\n");
    assert(out@ =~= device_report(code@));
    out
}

/// What is printed at the end of a logout.
pub open spec fn logout_report(binary: Seq<char>, product: Seq<char>) -> Seq<SpanText> {
    seq![
        inked(Ink::Plain, "You are now logged out\nRun "@),
        inked(Ink::Magenta, binary + " login"@),
        inked(Ink::Plain, " to log back in to "@ + product + "\n"@),
    ]
}

/// What is printed at the end of a logout.
pub fn logout(binary: &str, product: &str) -> (res: Report)
    ensures
        res@ == logout_report(binary@, product@),
{
    let mut out = Report::new();
    out.say(Ink::Plain, "You are now logged out\nRun ");
    let command = cat2(binary, " login");
    out.say(Ink::Magenta, command.as_str());
    let end = cat3(" to log back in to ", product, "\n");
    out.say(Ink::Plain, end.as_str());
    assert(out@ =~= logout_report(binary@, product@));
    out
}

/// The token of a user.
#[allow(inconsistent_fields)]
#[derive(Debug, PartialEq, Eq)]
pub enum TokenInfo {
    /// That of a Builder ID.
    BuilderId { start_url: Option<String>, region: Option<String> },
    /// That of Identity Center.
    IdentityCenter { start_url: String, region: Option<String> },
}

/// A profile of a user.
#[derive(Debug, PartialEq, Eq)]
pub struct UserProfile {
    /// Its name.
    pub profile_name: String,
    /// Its identifier.
    pub arn: String,
}

/// What profiles hold.
pub open spec fn profile_texts(v: Seq<UserProfile>) -> Seq<(Seq<char>, Seq<char>)> {
    Seq::new(v.len(), |i: int| (v[i].profile_name@, v[i].arn@))
}

/// What is known of the user.
#[derive(Debug)]
pub struct UserFacts {
    /// How requests are signed, as it was saved.
    pub strategy: Option<String>,
    /// The profile of AWS that was saved.
    pub aws_profile: Option<String>,
    /// The token, if there is one.
    pub token: Option<TokenInfo>,
    /// The profile that was selected.
    pub profile: Option<UserProfile>,
}

/// What is printed of who is logged in.
#[derive(Debug, PartialEq, Eq)]
pub enum WhoamiAnswer {
    /// A line of text.
    Text(String),
    /// The fields of an object, each with its text, or without one.
    Fields(Vec<(&'static str, Option<String>)>),
}

/// What such an answer says.
pub enum AnswerText {
    Text(Seq<char>),
    Fields(Seq<FieldText>),
}

/// The name of a field and its text.
pub type FieldText = (Seq<char>, Option<Seq<char>>);

/// What fields say.
pub open spec fn field_list(v: Seq<(&'static str, Option<String>)>) -> Seq<FieldText> {
    Seq::new(v.len(), |i: int| (v[i].0@, option_text(v[i].1)))
}

impl View for WhoamiAnswer {
    type V = AnswerText;

    open spec fn view(&self) -> AnswerText {
        match self {
            WhoamiAnswer::Text(t) => AnswerText::Text(t@),
            WhoamiAnswer::Fields(f) => AnswerText::Fields(field_list(f@)),
        }
    }
}

/// Who is logged in.
#[derive(Debug)]
pub struct Whoami {
    /// What is printed.
    pub answer: WhoamiAnswer,
    /// The kind of account, or `None` where nobody is logged in.
    pub account_type: Option<&'static str>,
    /// What is printed of the profile of the user, where it is shown.
    pub profile_report: Option<Report>,
    /// Whether somebody is logged in.
    pub success: bool,
}

/// What is asked of the user.
#[derive(Debug, PartialEq, Eq)]
pub struct WhoamiArgs {
    /// Whether the answer is to be read by programs.
    pub json: bool,
}

/// What is printed of a profile.
pub open spec fn profile_shown(profile: UserProfile) -> Seq<SpanText> {
    seq![
        inked(Ink::Plain, "\n"@),
        bold(Ink::Plain, "Profile:"@),
        inked(Ink::Plain, "\n"@ + profile.profile_name@ + "\n"@ + profile.arn@ + "\n\n"@),
    ]
}

fn show_profile(profile: &UserProfile) -> (res: Report)
    ensures
        res@ == profile_shown(*profile),
{
    let mut out = Report::new();
    out.say(Ink::Plain, "\n");
    out.say_bold(Ink::Plain, "Profile:");
    let rest = cat5("\n", profile.profile_name.as_str(), "\n", profile.arn.as_str(), "\n\n");
    out.say(Ink::Plain, rest.as_str());
    assert(out@ =~= profile_shown(*profile));
    out
}

/// What a report holds that may be absent.
pub open spec fn option_report(r: Option<Report>) -> Option<Seq<SpanText>> {
    match r {
        Some(r) => Some(r@),
        None => None,
    }
}

/// Who is logged in: the text, the kind of account, and what is printed of the profile.
pub open spec fn whoami(facts: UserFacts) -> (
    Seq<char>,
    Option<Seq<char>>,
    Option<Seq<SpanText>>,
) {
    if option_text(facts.strategy) == Some("sigv4"@) {
        (
            "Using AWS credentials (SigV4) for authentication"@ + (match option_text(facts.aws_profile) {
                Some(p) => " with profile '"@ + p + "'"@,
                None => ""@,
            }),
            Some("SigV4"@),
            None,
        )
    } else {
        match facts.token {
            Some(TokenInfo::BuilderId { .. }) => (
                "Logged in with Builder ID"@,
                Some("BuilderId"@),
                None,
            ),
            Some(TokenInfo::IdentityCenter { start_url, .. }) => (
                "Logged in with IAM Identity Center ("@ + start_url@ + ")"@,
                Some("IamIdentityCenter"@),
                match facts.profile {
                    Some(p) => Some(profile_shown(p)),
                    None => None,
                },
            ),
            None => ("Not logged in"@, None, None),
        }
    }
}

/// The text of a literal that may be absent.
pub open spec fn option_literal(s: Option<&'static str>) -> Option<Seq<char>> {
    match s {
        Some(s) => Some(s@),
        None => None,
    }
}

/// The fields that tell programs who is logged in.
pub open spec fn account_fields(facts: UserFacts) -> Seq<FieldText> {
    if option_text(facts.strategy) == Some("sigv4"@) {
        seq![
            ("accountType"@, Some("SigV4"@)),
            ("awsProfile"@, option_text(facts.aws_profile)),
        ]
    } else {
        match facts.token {
            Some(TokenInfo::BuilderId { start_url, region }) => seq![
                ("accountType"@, Some("BuilderId"@)),
                ("startUrl"@, option_text(start_url)),
                ("region"@, option_text(region)),
            ],
            Some(TokenInfo::IdentityCenter { start_url, region }) => seq![
                ("accountType"@, Some("IamIdentityCenter"@)),
                ("startUrl"@, Some(start_url@)),
                ("region"@, option_text(region)),
            ],
            None => seq![("account"@, None::<Seq<char>>)],
        }
    }
}

fn token_fields(kind: &str, start_url: Option<String>, region: Option<String>) -> (res: Vec<
    (&'static str, Option<String>),
>)
    ensures
        field_list(res@) == seq![
            ("accountType"@, Some(kind@)),
            ("startUrl"@, option_text(start_url)),
            ("region"@, option_text(region)),
        ],
{
    let ghost url = option_text(start_url);
    let ghost place = option_text(region);
    let mut out: Vec<(&'static str, Option<String>)> = Vec::new();
    out.push(("accountType", Some(String::from_str(kind))));
    out.push(("startUrl", start_url));
    out.push(("region", region));
    assert(field_list(out@) =~= seq![
        ("accountType"@, Some(kind@)),
        ("startUrl"@, url),
        ("region"@, place),
    ]);
    out
}

/// The fields that tell programs who is logged in.
pub fn fields_of(facts: &UserFacts) -> (res: Vec<(&'static str, Option<String>)>)
    ensures
        field_list(res@) == account_fields(*facts),
{
    let mut out: Vec<(&'static str, Option<String>)> = Vec::new();
    if let Some(s) = &facts.strategy {
        if same_text(s.as_str(), "sigv4") {
            out.push(("accountType", Some(String::from_str("SigV4"))));
            out.push(("awsProfile", copy_option(&facts.aws_profile)));
            assert(field_list(out@) =~= account_fields(*facts));
            return out;
        }
    }
    match &facts.token {
        Some(TokenInfo::BuilderId { start_url, region }) => token_fields(
            "BuilderId",
            copy_option(start_url),
            copy_option(region),
        ),
        Some(TokenInfo::IdentityCenter { start_url, region }) => token_fields(
            "IamIdentityCenter",
            Some(String::from_str(start_url.as_str())),
            copy_option(region),
        ),
        None => {
            out.push(("account", None));
            assert(field_list(out@) =~= account_fields(*facts));
            out
        },
    }
}

/// The text that tells the user who is logged in.
fn text_of_user(facts: &UserFacts) -> (res: String)
    ensures
        res@ == whoami(*facts).0,
{
    if let Some(s) = &facts.strategy {
        if same_text(s.as_str(), "sigv4") {
            let info = match &facts.aws_profile {
                Some(p) => cat3(" with profile '", p.as_str(), "'"),
                None => String::from_str(""),
            };
            return cat2("Using AWS credentials (SigV4) for authentication", info.as_str());
        }
    }
    match &facts.token {
        Some(TokenInfo::BuilderId { start_url: _, region: _ }) => String::from_str(
            "Logged in with Builder ID",
        ),
        Some(TokenInfo::IdentityCenter { start_url, region: _ }) => cat3(
            "Logged in with IAM Identity Center (",
            start_url.as_str(),
            ")",
        ),
        None => String::from_str("Not logged in"),
    }
}

impl WhoamiArgs {
    /// Says who is logged in: to programs in fields, to the user in a text.
    pub fn execute(&self, facts: &UserFacts) -> (res: Whoami)
        ensures
            res.answer@ == if self.json {
                AnswerText::Fields(account_fields(*facts))
            } else {
                AnswerText::Text(whoami(*facts).0)
            },
            option_literal(res.account_type) == whoami(*facts).1,
            option_report(res.profile_report) == whoami(*facts).2,
            res.success == (res.account_type is Some),
    {
        let answer = if self.json {
            WhoamiAnswer::Fields(fields_of(facts))
        } else {
            WhoamiAnswer::Text(text_of_user(facts))
        };
        if let Some(s) = &facts.strategy {
            if same_text(s.as_str(), "sigv4") {
                return Whoami {
                    answer,
                    account_type: Some("SigV4"),
                    profile_report: None,
                    success: true,
                };
            }
        }
        match &facts.token {
            Some(TokenInfo::BuilderId { start_url: _, region: _ }) => Whoami {
                answer,
                account_type: Some("BuilderId"),
                profile_report: None,
                success: true,
            },
            Some(TokenInfo::IdentityCenter { start_url: _, region: _ }) => {
                let profile_report = match &facts.profile {
                    Some(p) => Some(show_profile(p)),
                    None => None,
                };
                Whoami {
                    answer,
                    account_type: Some("IamIdentityCenter"),
                    profile_report,
                    success: true,
                }
            },
            None => Whoami { answer, account_type: None, profile_report: None, success: false },
        }
    }
}

/// What can be asked about the user.
#[derive(Debug, Clone, Copy, PartialEq, Eq, Structural)]
pub enum UserSubcommand {
    /// Select a profile.
    Profile,
}

/// Whether a user may select a profile: only one with a Builder ID may not.
pub fn profile(token: &Option<TokenInfo>) -> (res: Result<(), String>)
    ensures
        crate::context::failure(res) == match token {
            Some(TokenInfo::BuilderId { .. }) => Some("This command is only available for Pro users"@),
            _ => None,
        },
{
    match token {
        Some(TokenInfo::BuilderId { start_url: _, region: _ }) => Err(
            String::from_str("This command is only available for Pro users"),
        ),
        _ => Ok(()),
    }
}

/// The region in the identifier of a profile: its fourth part.
pub open spec fn arn_region(arn: Seq<char>) -> Option<Seq<char>> {
    let parts = split_char(arn, ':');
    if parts.len() > 3 {
        Some(parts[3])
    } else {
        None
    }
}

fn region_of(arn: &str) -> (res: Option<String>)
    ensures
        option_text(res) == arn_region(arn@),
{
    let parts = split_on(arn, ':');
    let ghost ps = split_char(arn@, ':');
    if parts.len() > 3 {
        assert(ps[3] == parts@[3]@);
        Some(String::from_str(parts[3].as_str()))
    } else {
        None
    }
}

/// The position of the active profile at or after `from`, or the number of profiles.
pub open spec fn find_active(profiles: Seq<(Seq<char>, Seq<char>)>, active: Option<Seq<char>>, from: int) -> int
    decreases profiles.len() - from,
{
    if from >= profiles.len() || active == Some(profiles[from].1) {
        from
    } else {
        find_active(profiles, active, from + 1)
    }
}

fn position_of_active(profiles: &Vec<UserProfile>, active_arn: &Option<String>) -> (res: usize)
    ensures
        res == find_active(profile_texts(profiles@), option_text(*active_arn), 0),
{
    let ghost list = profile_texts(profiles@);
    let ghost active = option_text(*active_arn);
    let mut i: usize = 0;
    while i < profiles.len()
        invariant
            i <= profiles@.len(),
            list == profile_texts(profiles@),
            active == option_text(*active_arn),
            find_active(list, active, 0) == find_active(list, active, i as int),
        decreases profiles@.len() - i,
    {
        assert(list[i as int].1 == profiles@[i as int].arn@);
        if let Some(a) = active_arn {
            if same_text(a.as_str(), profiles[i].arn.as_str()) {
                return i;
            }
        }
        i += 1;
    }
    i
}

/// How profiles are offered; the active one is marked.
pub open spec fn profile_items(profiles: Seq<(Seq<char>, Seq<char>)>, active: Option<Seq<char>>) -> Seq<Seq<char>> {
    Seq::new(
        profiles.len(),
        |i: int|
            {
                let item = profiles[i].0 + " (arn: "@ + profiles[i].1 + ")"@;
                if i == find_active(profiles, active, 0) {
                    item + " (active)"@
                } else {
                    item
                }
            },
    )
}

/// How the selection of a profile goes.
#[derive(Debug)]
pub enum ProfileSelection<'a> {
    /// There is none.
    Nothing,
    /// There is only one, and it is to be saved; its region is told.
    UseOnly(&'a UserProfile, Option<String>),
    /// The user is asked for one of these.
    Ask(Vec<String>),
}

/// Starts the selection of a profile. After a login the only profile is used without asking.
pub fn begin_selection<'a>(
    profiles: &'a Vec<UserProfile>,
    active_arn: &Option<String>,
    after_login: bool,
) -> (res: ProfileSelection<'a>)
    ensures
        ({
            let list = profile_texts(profiles@);
            if list.len() == 0 {
                res is Nothing
            } else if after_login && list.len() == 1 {
                res matches ProfileSelection::UseOnly(p, r) && *p == profiles@[0] && option_text(r)
                    == arn_region(list[0].1)
            } else {
                res matches ProfileSelection::Ask(v) && texts(v@) == profile_items(
                    list,
                    option_text(*active_arn),
                )
            }
        }),
{
    let ghost list = profile_texts(profiles@);
    let ghost active = option_text(*active_arn);
    if profiles.len() == 0 {
        return ProfileSelection::Nothing;
    }
    if after_login && profiles.len() == 1 {
        assert(list[0].1 == profiles@[0].arn@);
        return ProfileSelection::UseOnly(&profiles[0], region_of(profiles[0].arn.as_str()));
    }
    let at: usize = position_of_active(profiles, active_arn);
    let mut out: Vec<String> = Vec::new();
    let mut i: usize = 0;
    while i < profiles.len()
        invariant
            i <= profiles@.len(),
            list == profile_texts(profiles@),
            at == find_active(list, active, 0),
            out@.len() == i,
            forall|j: int| 0 <= j < i ==> (#[trigger] out@[j])@ == profile_items(list, active)[j],
        decreases profiles@.len() - i,
    {
        let one = &profiles[i];
        assert(list[i as int] == (one.profile_name@, one.arn@));
        let item = cat4(one.profile_name.as_str(), " (arn: ", one.arn.as_str(), ")");
        if i == at {
            out.push(cat2(item.as_str(), " (active)"));
        } else {
            out.push(item);
        }
        assert(out@[i as int]@ == profile_items(list, active)[i as int]);
        i += 1;
    }
    assert(texts(out@) =~= profile_items(list, active));
    ProfileSelection::Ask(out)
}

/// Why a profile was selected.
#[derive(Debug, Clone, Copy, PartialEq, Eq, Structural)]
pub enum SelectionIntent {
    /// It is part of a login.
    Auth,
    /// The user asked for it.
    User,
}

/// A profile that was chosen.
#[derive(Debug)]
pub struct ChosenProfile<'a> {
    /// The profile, which is to be saved.
    pub profile: &'a UserProfile,
    /// Its region, if it names one.
    pub region: Option<String>,
    /// Why it was chosen.
    pub intent: SelectionIntent,
}

/// The profile that was chosen, or what is said where none was.
pub fn finish_selection<'a>(
    profiles: &'a Vec<UserProfile>,
    selected: Option<usize>,
    after_login: bool,
) -> (res: Result<ChosenProfile<'a>, String>)
    requires
        selected matches Some(i) ==> i < profiles@.len(),
    ensures
        match selected {
            Some(i) => {
                &&& res matches Ok(x)
                &&& *x.profile == profiles@[i as int]
                &&& option_text(x.region) == arn_region(profiles@[i as int].arn@)
                &&& x.intent == (if after_login {
                    SelectionIntent::Auth
                } else {
                    SelectionIntent::User
                })
            },
            None => res matches Err(e) && e@ == "No profile selected.\n"@,
        },
{
    match selected {
        None => Err(String::from_str("No profile selected.\n")),
        Some(i) => {
            let region = region_of(profiles[i].arn.as_str());
            let intent = if after_login {
                SelectionIntent::Auth
            } else {
                SelectionIntent::User
            };
            Ok(ChosenProfile { profile: &profiles[i], region, intent })
        },
    }
}

/// The way of signing that is saved after these effects, where it was `before`.
pub open spec fn strategy_after(effects: Seq<EffectText>, before: Option<Seq<char>>) -> Option<Seq<char>>
    decreases effects.len(),
{
    if effects.len() == 0 {
        before
    } else {
        match effects.last() {
            EffectText::SaveStrategy(s) => Some(s),
            _ => strategy_after(effects.drop_last(), before),
        }
    }
}

/// The profile of AWS that is saved after these effects, where it was `before`.
pub open spec fn profile_after(effects: Seq<EffectText>, before: Option<Seq<char>>) -> Option<Seq<char>>
    decreases effects.len(),
{
    if effects.len() == 0 {
        before
    } else {
        match effects.last() {
            EffectText::SaveProfile(p) => Some(p),
            _ => profile_after(effects.drop_last(), before),
        }
    }
}

/// Whether these effects end a login with the credentials of AWS, with a profile or with none.
pub open spec fn is_sigv4_login(effects: Seq<EffectText>, profile: Option<Seq<char>>) -> bool {
    ||| effects == requested_sigv4(profile)
    ||| profile is None && effects == chosen_sigv4(""@)
    ||| profile matches Some(p) && p.len() > 0 && effects == chosen_sigv4(p)
}

proof fn lemma_effects_end(effects: Seq<EffectText>, more: Seq<EffectText>, before: Option<Seq<char>>)
    requires
        forall|i: int|
            0 <= i < more.len() ==> !((#[trigger] more[i]) is SaveStrategy) && !(more[i] is SaveProfile),
    ensures
        strategy_after(effects + more, before) == strategy_after(effects, before),
        profile_after(effects + more, before) == profile_after(effects, before),
    decreases more.len(),
{
    if more.len() == 0 {
        assert(effects + more =~= effects);
    } else {
        let all = effects + more;
        assert(all.last() == more[more.len() - 1]);
        assert(all.drop_last() =~= effects + more.drop_last());
        lemma_effects_end(effects, more.drop_last(), before);
    }
}

/// Who logged in with the credentials of AWS is told so, whatever token is there, with the
/// profile that the login named, or with the one that was saved before where it named none.
pub proof fn law_sigv4_login_is_told(
    effects: Seq<EffectText>,
    profile: Option<Seq<char>>,
    strategy_before: Option<Seq<char>>,
    profile_before: Option<Seq<char>>,
    facts: UserFacts,
)
    requires
        is_sigv4_login(effects, profile),
        option_text(facts.strategy) == strategy_after(effects, strategy_before),
        option_text(facts.aws_profile) == profile_after(effects, profile_before),
    ensures
        whoami(facts) == (
            "Using AWS credentials (SigV4) for authentication"@ + (match profile {
                Some(p) => " with profile '"@ + p + "'"@,
                None => match profile_before {
                    Some(p) => " with profile '"@ + p + "'"@,
                    None => ""@,
                },
            }),
            Some("SigV4"@),
            None::<Seq<SpanText>>,
        ),
{
    reveal_with_fuel(strategy_after, 4);
    reveal_with_fuel(profile_after, 5);
    reveal_strlit("");
    let save = seq![EffectText::SaveStrategy("sigv4"@)];
    let end = seq![
        EffectText::Print("Using SigV4 authentication with AWS credentials"@),
        EffectText::CountLogin,
    ];
    match profile {
        Some(p) => {
            let told = seq![EffectText::Print("Using AWS profile: "@ + p)];
            let kept = seq![EffectText::SaveProfile(p)];
            let long = save + told + save + kept;
            let short = save + kept;
            assert(requested_sigv4(profile) =~= long + (told + end));
            assert(p.len() > 0 ==> chosen_sigv4(p) =~= short + (told + end));
            lemma_effects_end(long, told + end, strategy_before);
            lemma_effects_end(long, told + end, profile_before);
            lemma_effects_end(short, told + end, strategy_before);
            lemma_effects_end(short, told + end, profile_before);
            assert(long.drop_last() =~= save + told + save);
            assert(short.drop_last() =~= save);
        },
        None => {
            let twice = save + save;
            assert(requested_sigv4(profile) =~= twice + end);
            assert(chosen_sigv4(""@) =~= save + end);
            lemma_effects_end(twice, end, strategy_before);
            lemma_effects_end(twice, end, profile_before);
            lemma_effects_end(save, end, strategy_before);
            lemma_effects_end(save, end, profile_before);
            assert(twice.drop_last() =~= save);
            assert(save.drop_last() =~= seq![]);
        },
    }
}

/// At most one of the offered profiles is marked as active.
pub proof fn law_one_active(profiles: Seq<(Seq<char>, Seq<char>)>, active: Option<Seq<char>>)
    ensures
        forall|i: int|
            0 <= i < profiles.len() && i != find_active(profiles, active, 0) ==> #[trigger] profile_items(
                profiles,
                active,
            )[i] == profiles[i].0 + " (arn: "@ + profiles[i].1 + ")"@,
{
}

} // verus!
