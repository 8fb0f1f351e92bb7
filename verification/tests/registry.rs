use bunnypmsl::registry::{dispatch, list_all_metadata, resolve, RegisteredCommand};

#[test]
fn test_resolve_every_alias() {
    assert_eq!(resolve("bindings"), Some(RegisteredCommand::Bindings));
    assert_eq!(resolve("commands"), Some(RegisteredCommand::Bindings));
    assert_eq!(resolve("list"), Some(RegisteredCommand::Bindings));
    assert_eq!(resolve("bunny"), Some(RegisteredCommand::Bindings));
    assert_eq!(resolve("cmd"), Some(RegisteredCommand::Bindings));
    assert_eq!(resolve("cmds"), Some(RegisteredCommand::Bindings));
    assert_eq!(resolve("help"), Some(RegisteredCommand::Bindings));
    assert_eq!(resolve("gh"), Some(RegisteredCommand::GitHub));
    assert_eq!(resolve("godocs"), Some(RegisteredCommand::Godocs));
    assert_eq!(resolve("gchat"), Some(RegisteredCommand::GoogleChat));
    assert_eq!(resolve("gsheets"), Some(RegisteredCommand::GoogleSheets));
    assert_eq!(resolve("gslides"), Some(RegisteredCommand::GoogleSlides));
    assert_eq!(resolve("p"), Some(RegisteredCommand::Perplexity));
}

#[test]
fn test_resolve_unknown_alias() {
    assert_eq!(resolve(""), None);
    assert_eq!(resolve("github"), None);
    assert_eq!(resolve("GH"), None);
}

#[test]
fn test_dispatch_bare_aliases() {
    assert_eq!(dispatch("gh"), Some("https://github.com".to_string()));
    assert_eq!(dispatch("gchat"), Some("https://chat.google.com/".to_string()));
    assert_eq!(dispatch("godocs"), Some("https://go.dev/doc/".to_string()));
    assert_eq!(dispatch("gsheets"), Some("https://docs.google.com/spreadsheets/u/0/".to_string()));
    assert_eq!(dispatch("gslides"), Some("https://docs.google.com/presentation/u/0/".to_string()));
    assert_eq!(dispatch("p"), Some("https://perplexity.ai".to_string()));
    assert_eq!(dispatch("bindings"), Some("/bindings".to_string()));
}

#[test]
fn test_dispatch_with_arguments() {
    assert_eq!(
        dispatch("gh daveio/bunnypmsl"),
        Some("https://github.com/daveio/bunnypmsl".to_string())
    );
    assert_eq!(
        dispatch("p why is the sky blue"),
        Some("https://perplexity.ai/search?q=why%20is%20the%20sky%20blue".to_string())
    );
}

#[test]
fn test_dispatch_leading_whitespace() {
    assert_eq!(dispatch("  gh daveio"), Some("https://github.com/daveio".to_string()));
    assert_eq!(dispatch(" p"), Some("https://perplexity.ai".to_string()));
}

#[test]
fn test_dispatch_not_found() {
    assert_eq!(dispatch(""), None);
    assert_eq!(dispatch("   "), None);
    assert_eq!(dispatch("\t\n"), None);
    assert_eq!(dispatch("unknown"), None);
    assert_eq!(dispatch("zzz with args"), None);
}

#[test]
fn test_list_all_metadata_registration_order() {
    let infos = list_all_metadata();
    assert_eq!(infos.len(), 7);
    assert_eq!(infos[0].bindings[0], "bindings");
    assert_eq!(infos[1].bindings[0], "gh");
    assert_eq!(infos[2].bindings[0], "godocs");
    assert_eq!(infos[3].bindings[0], "gchat");
    assert_eq!(infos[4].bindings[0], "gsheets");
    assert_eq!(infos[5].bindings[0], "gslides");
    assert_eq!(infos[6].bindings[0], "p");
}
