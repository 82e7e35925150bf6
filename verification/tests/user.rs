use chat_cli::complete::{
    choose_completions, display_completions, extract_completions_from_text, extract_numbered_item, offer_completions,
    pick_item, select_completion, Answer, CompleteArgs, CompleteStep, ResponseEvent,
};
use chat_cli::login::{
    after_login, begin_selection, finish_selection, flow_after_open, logout, poll_seconds, profile, report_device,
    AfterLogin, AuthMethod, AuthStrategy, LicenseType, LoginArgs, LoginEffect, LoginFlow, LoginStep,
    ProfileSelection, SelectionIntent, TokenInfo, UserFacts, UserProfile, WhoamiAnswer, WhoamiArgs,
};
use chat_cli::model::{model_options, ModelArgs, QuitArgs, DEFAULT_MODEL_ID};
use chat_cli::subscription::{
    chat_limits, console_url_of, generate_console_url, get_subscription_status, SubscriptionTier,
};

fn list(v: &[&str]) -> Vec<String> {
    v.iter().map(|s| s.to_string()).collect()
}

fn center(region: Option<&str>) -> Option<TokenInfo> {
    Some(TokenInfo::IdentityCenter {
        start_url: "https://example.com/start".to_string(),
        region: region.map(|r| r.to_string()),
    })
}

fn builder(region: Option<&str>) -> Option<TokenInfo> {
    Some(TokenInfo::BuilderId { start_url: None, region: region.map(|r| r.to_string()) })
}

#[test]
fn items_of_lists_are_found() {
    assert_eq!(extract_numbered_item("1. Text").as_deref(), Some("Text"));
    assert_eq!(extract_numbered_item("12)Text ").as_deref(), Some("Text"));
    assert_eq!(extract_numbered_item("• Text").as_deref(), Some("Text"));
    assert_eq!(extract_numbered_item("- Text").as_deref(), Some("Text"));
    assert_eq!(extract_numbered_item("* Text").as_deref(), Some("Text"));
    assert_eq!(extract_numbered_item("Text"), None);
    assert_eq!(pick_item(&vec![None, Some(" b ".to_string()), Some("c".to_string())]).as_deref(), Some("b"));
    assert_eq!(pick_item(&vec![None, None, None]), None);
}

#[test]
fn completions_are_taken_from_an_answer() {
    assert_eq!(
        extract_completions_from_text("Here they are:\n 1. one\n2. two\nbye"),
        list(&["one", "two"])
    );
    assert_eq!(
        extract_completions_from_text("a\n\n[b]\nSYSTEM c\nd\ne\nf\ng\nh"),
        list(&["a", "d", "e", "f", "g"])
    );
    assert_eq!(
        choose_completions(&vec![None, Some("x".to_string()), Some(String::new())], "text"),
        list(&["x"])
    );
    assert_eq!(choose_completions(&vec![None], "text"), list(&["text"]));
}

#[test]
fn completions_are_shown_and_selected() {
    let two = list(&["one", "two"]);
    assert_eq!(display_completions(&two).text(), "Generated completions:\n\n  1. one\n  2. two\n\n");
    assert_eq!(
        offer_completions(&two).text(),
        "Select a completion to send:\n\n  1. one\n  2. two\n\nEnter selection (1-2), or press Enter to cancel: "
    );
    assert_eq!(select_completion(&Some(" 2 ".to_string()), &two).unwrap(), "two");
    assert_eq!(select_completion(&Some("+1".to_string()), &two).unwrap(), "one");
    assert_eq!(select_completion(&Some("3".to_string()), &two).unwrap_err().text(), "Invalid selection.\n");
    assert_eq!(select_completion(&Some("0".to_string()), &two).unwrap_err().text(), "Invalid selection.\n");
    assert_eq!(select_completion(&Some("x".to_string()), &two).unwrap_err().text(), "Invalid selection.\n");
    assert_eq!(select_completion(&Some(" ".to_string()), &two).unwrap_err().text(), "Completion cancelled.\n");
    assert_eq!(select_completion(&None, &two).unwrap_err().text(), "Completion cancelled.\n");
}

#[test]
fn completing_goes_step_by_step() {
    let args = |preview, count| CompleteArgs { context: None, preview, count };
    assert!(matches!(args(false, 3).execute(true), CompleteStep::Stop(_)));
    assert!(matches!(args(false, 3).execute(false), CompleteStep::Ask(3)));
    assert!(matches!(args(false, 99).execute(false), CompleteStep::Ask(n) if n == args(false, 99).wanted()));
    match args(false, 3).proceed(&Vec::new()) {
        CompleteStep::Stop(report) => assert_eq!(report.text(), "No completions could be generated.\n"),
        other => panic!("{:?}", other),
    }
    assert!(matches!(args(true, 3).proceed(&list(&["a"])), CompleteStep::Stop(_)));
    assert!(matches!(args(false, 3).proceed(&list(&["a"])), CompleteStep::Choose(_)));
}

#[test]
fn models_are_offered() {
    let options = model_options(&list(&["one", "two", "three"]));
    assert_eq!(options.len(), 3);
    assert!(options.iter().any(|o| o.model_id == DEFAULT_MODEL_ID));
    let args = ModelArgs {};
    assert_eq!(
        args.labels(&options, &Some(DEFAULT_MODEL_ID.to_string())),
        list(&["one", "two (active)", "three"])
    );
    assert_eq!(args.labels(&options, &None), list(&["one", "two", "three"]));
    let (id, report) = args.execute(&options, Some(1)).unwrap();
    assert_eq!(id, DEFAULT_MODEL_ID);
    assert_eq!(report.text(), "\n Using two\n\n");
    assert!(args.execute(&options, None).is_none());
    let (save, _) = QuitArgs { save: Some("x".to_string()) }.execute();
    assert_eq!(save.as_deref(), Some("x"));
}

#[test]
fn login_decides_on_a_method() {
    let args = LoginArgs::default();
    match args.execute(true, "q") {
        LoginStep::Refuse(report) => assert_eq!(report.text(), "Already logged in, please logout with q logout first"),
        other => panic!("{:?}", other),
    }
    assert!(matches!(args.execute(false, "q"), LoginStep::AskMethod));
    let free = LoginArgs { license: Some(LicenseType::Free), ..LoginArgs::default() };
    assert!(matches!(free.execute(false, "q"), LoginStep::Use(AuthMethod::BuilderId)));
    let pro = LoginArgs { license: Some(LicenseType::Pro), ..LoginArgs::default() };
    assert!(matches!(pro.execute(false, "q"), LoginStep::Use(AuthMethod::IdentityCenter)));
    let told = LoginArgs {
        identity_provider: Some("u".to_string()),
        region: Some("r".to_string()),
        ..LoginArgs::default()
    };
    assert!(matches!(told.execute(false, "q"), LoginStep::Use(AuthMethod::IdentityCenter)));
    assert_eq!(
        told.identity_defaults(&Some("x".to_string()), &None),
        (Some("u".to_string()), Some("r".to_string()))
    );
    assert_eq!(args.identity_defaults(&Some("x".to_string()), &None), (Some("x".to_string()), None));
    let signed = LoginArgs {
        auth_strategy: Some(AuthStrategy::SigV4),
        aws_profile: Some("p".to_string()),
        ..LoginArgs::default()
    };
    match signed.execute(false, "q") {
        LoginStep::Finish(effects) => {
            assert_eq!(effects[0], LoginEffect::SaveStrategy("sigv4".to_string()));
            assert!(effects.contains(&LoginEffect::SaveProfile("p".to_string())));
            assert_eq!(effects.last(), Some(&LoginEffect::CountLogin));
        },
        other => panic!("{:?}", other),
    }
    assert_eq!(args.chosen_method(Some(0)), Ok(AuthMethod::BuilderId));
    assert_eq!(args.chosen_method(Some(1)), Ok(AuthMethod::IdentityCenter));
    assert_eq!(args.chosen_method(Some(2)), Ok(AuthMethod::SigV4));
    assert_eq!(args.chosen_method(None), Err("No login method selected".to_string()));
    assert!(!args.finish_sigv4("").contains(&LoginEffect::SaveProfile(String::new())));
    assert!(args.finish_sigv4("dev").contains(&LoginEffect::SaveProfile("dev".to_string())));
    assert_eq!(AuthMethod::BuilderId.label(), "Use for Free with Builder ID");
}

#[test]
fn login_goes_through_a_flow() {
    let args = LoginArgs::default();
    assert!(matches!(args.flow(true), LoginFlow::Device));
    assert!(matches!(args.flow(false), LoginFlow::Browser));
    let device = LoginArgs { use_device_flow: true, ..LoginArgs::default() };
    assert!(matches!(device.flow(false), LoginFlow::Device));
    assert!(matches!(flow_after_open(true), LoginFlow::Browser));
    assert!(matches!(flow_after_open(false), LoginFlow::Device));
    assert!(matches!(after_login(AuthMethod::BuilderId), AfterLogin::SaveBearer));
    assert!(matches!(after_login(AuthMethod::IdentityCenter), AfterLogin::SelectProfile));
    assert_eq!(poll_seconds(5), 5);
    assert_eq!(poll_seconds(-1), 1);
    assert_eq!(report_device("AB-12").text(), "\nConfirm the following code in the browser\nCode: AB-12\n\n");
    assert_eq!(
        logout("q", "Amazon Q").text(),
        "You are now logged out\nRun q login to log back in to Amazon Q\n"
    );
}

#[test]
fn users_are_told_who_they_are() {
    let facts = |strategy: Option<&str>, token, profile| UserFacts {
        strategy: strategy.map(|s| s.to_string()),
        aws_profile: Some("dev".to_string()),
        token,
        profile,
    };
    let args = WhoamiArgs { json: false };
    let who = args.execute(&facts(Some("sigv4"), None, None));
    assert_eq!(who.answer, WhoamiAnswer::Text("Using AWS credentials (SigV4) for authentication with profile 'dev'".to_string()));
    assert!(who.success);
    let who = args.execute(&facts(Some("bearer"), builder(None), None));
    assert_eq!(who.answer, WhoamiAnswer::Text("Logged in with Builder ID".to_string()));
    assert_eq!(who.account_type, Some("BuilderId"));
    let profile = UserProfile { profile_name: "n".to_string(), arn: "a".to_string() };
    let who = args.execute(&facts(None, center(None), Some(profile)));
    assert_eq!(who.answer, WhoamiAnswer::Text("Logged in with IAM Identity Center (https://example.com/start)".to_string()));
    let report = who.profile_report.unwrap();
    assert_eq!(report.text(), "\nProfile:\nn\na\n\n");
    assert!(report.spans[1].bold);
    assert_eq!(report.spans[1].text, "Profile:");
    let who = args.execute(&facts(None, None, None));
    assert_eq!(who.answer, WhoamiAnswer::Text("Not logged in".to_string()));
    assert!(!who.success);
}

#[test]
fn profiles_of_users_are_selected() {
    assert_eq!(profile(&builder(None)), Err("This command is only available for Pro users".to_string()));
    assert_eq!(profile(&center(None)), Ok(()));
    let one = |n: &str, arn: &str| UserProfile { profile_name: n.to_string(), arn: arn.to_string() };
    let two = || vec![one("a", "arn:aws:q:eu-west-1:1"), one("b", "arn:aws:q:us-east-1:2")];
    assert!(matches!(begin_selection(&Vec::new(), &None, true), ProfileSelection::Nothing));
    match begin_selection(&vec![one("a", "arn:aws:q:eu-west-1:1")], &None, true) {
        ProfileSelection::UseOnly(profile, region) => {
            assert_eq!(profile.profile_name, "a");
            assert_eq!(region.as_deref(), Some("eu-west-1"));
        },
        other => panic!("{:?}", other),
    }
    match begin_selection(&two(), &Some("arn:aws:q:us-east-1:2".to_string()), false) {
        ProfileSelection::Ask(items) => assert_eq!(
            items,
            list(&["a (arn: arn:aws:q:eu-west-1:1)", "b (arn: arn:aws:q:us-east-1:2) (active)"])
        ),
        other => panic!("{:?}", other),
    }
    match finish_selection(&two(), Some(1), true) {
        Ok(chosen) => {
            assert_eq!(chosen.profile.profile_name, "b");
            assert_eq!(chosen.region.as_deref(), Some("us-east-1"));
            assert_eq!(chosen.intent, SelectionIntent::Auth);
        },
        other => panic!("{:?}", other),
    }
    assert_eq!(finish_selection(&two(), None, true).err().as_deref(), Some("No profile selected.\n"));
}

#[test]
fn subscriptions_follow_the_token() {
    assert!(matches!(get_subscription_status(&center(None)).tier, SubscriptionTier::Pro));
    assert!(matches!(get_subscription_status(&builder(None)).tier, SubscriptionTier::Free));
    assert!(matches!(get_subscription_status(&None).tier, SubscriptionTier::Free));
    let page = |r: &str| format!("https://{r}.console.aws.amazon.com/amazonq/developer/home#/subscriptions");
    assert_eq!(console_url_of(&center(None)), Some(page("us-east-1")));
    assert_eq!(console_url_of(&center(Some("eu-west-1"))), Some(page("eu-west-1")));
    assert_eq!(console_url_of(&builder(None)), None);
    assert_eq!(generate_console_url(&None, Ok("link".to_string())), Ok("link".to_string()));
    let conflict = || Err("ConflictException: subscribed".to_string());
    assert_eq!(generate_console_url(&builder(Some("eu-west-1")), conflict()), Ok(page("eu-west-1")));
    assert_eq!(
        generate_console_url(&builder(None), conflict()),
        Ok("https://docs.aws.amazon.com/console/amazonq/upgrade-builder-id".to_string())
    );
    assert_eq!(generate_console_url(&center(None), Ok("link".to_string())), Ok(page("us-east-1")));
    assert_eq!(generate_console_url(&None, Err("other".to_string())), Err("other".to_string()));
    assert_eq!(chat_limits(&list(&["Chat", "CODE", "CHAT"])), vec![0, 2]);
}

#[test]
fn an_answer_is_read_part_by_part() {
    let mut answer = Answer::new();
    for part in ["1. one\n2. t", "wo"] {
        answer.take(Ok(ResponseEvent::AssistantText(part.to_string()))).unwrap();
    }
    answer.take(Ok(ResponseEvent::Other)).unwrap();
    assert!(!answer.ended);
    assert_eq!(
        answer.take(Err("cut".to_string())).unwrap_err(),
        "Failed to parse completion response: cut"
    );
    answer.take(Ok(ResponseEvent::EndStream)).unwrap();
    assert!(answer.ended);
    assert_eq!(answer.completions(), list(&["one", "two"]));
}

#[test]
fn a_login_with_credentials_is_told() {
    let args = LoginArgs::default();
    let mut strategy = Some("bearer".to_string());
    let mut aws_profile = Some("old".to_string());
    for effect in args.finish_sigv4("dev") {
        match effect {
            LoginEffect::SaveStrategy(s) => strategy = Some(s),
            LoginEffect::SaveProfile(p) => aws_profile = Some(p),
            _ => {},
        }
    }
    let facts = UserFacts { strategy, aws_profile, token: builder(None), profile: None };
    let who = WhoamiArgs { json: false }.execute(&facts);
    assert_eq!(who.answer, WhoamiAnswer::Text("Using AWS credentials (SigV4) for authentication with profile 'dev'".to_string()));
    assert_eq!(who.account_type, Some("SigV4"));
}

#[test]
fn programs_are_told_in_fields() {
    let facts = |strategy: Option<&str>, token| UserFacts {
        strategy: strategy.map(str::to_string),
        aws_profile: None,
        token,
        profile: None,
    };
    let fields = |f: &UserFacts| match (WhoamiArgs { json: true }).execute(f).answer {
        WhoamiAnswer::Fields(fields) => fields,
        other => panic!("{:?}", other),
    };
    let some = |t: &str| Some(t.to_string());
    assert_eq!(fields(&facts(Some("sigv4"), None)), vec![("accountType", some("SigV4")), ("awsProfile", None)]);
    assert_eq!(
        fields(&facts(None, builder(Some("eu-west-1")))),
        vec![("accountType", some("BuilderId")), ("startUrl", None), ("region", some("eu-west-1"))]
    );
    assert_eq!(
        fields(&facts(None, center(None))),
        vec![
            ("accountType", some("IamIdentityCenter")),
            ("startUrl", some("https://example.com/start")),
            ("region", None)
        ]
    );
    assert_eq!(fields(&facts(None, None)), vec![("account", None)]);
}
