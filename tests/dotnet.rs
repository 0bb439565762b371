use og_cli::dotnet::{
    dotnet_check, dotnet_run_args, env_var_regex, get_launch_setting_names, lauch_settings_regex,
    split_newlines, CompiledPattern,
};

#[test]
fn test_the_regex_is_match() {
    let regex = lauch_settings_regex().expect("Regex fails");

    assert!(regex.matches("    \"Erp - Dev\": {"));
    assert!(!regex.matches("\"Erp - Dev\": {"));
    assert!(!regex.matches("\"Erp - Dev\": \"something\" ,"));
    assert!(!regex.matches("\"Erp - Dev\": \"something\" {"));
}

#[test]
fn test_the_regex_capturing() {
    let regex = lauch_settings_regex().expect("Regex fails");
    let capture = regex.named_group("    \"Erp - Dev\": {", "lsn").unwrap();

    assert_eq!(capture, "Erp - Dev".to_string());
}

#[test]
fn env_regex_matches_environment_lines() {
    let regex = env_var_regex().expect("Regex fails");
    assert!(regex.matches("      \"environmentVariables\": {"));
    assert!(!regex.matches("      \"commandName\": \"Project\","));
}

#[test]
fn invalid_pattern_does_not_compile() {
    assert!(CompiledPattern::new("(unclosed").is_none());
    assert!(CompiledPattern::new("a+").is_some());
}

#[test]
fn launch_profiles_are_listed_in_order() {
    let settings = "{\n  \"profiles\": {\n    \"Erp - Dev\": {\n      \"commandName\": \"Project\",\n      \"environmentVariables\": {\n        \"ASPNETCORE_ENVIRONMENT\": \"Development\"\n      }\n    },\n    \"Erp - Test\": {\n      \"commandName\": \"Project\"\n    }\n  }\n}\n";
    let names = get_launch_setting_names(settings).unwrap();
    assert_eq!(names, vec!["Erp - Dev".to_string(), "Erp - Test".to_string()]);
}

#[test]
fn split_keeps_empty_pieces() {
    assert_eq!(split_newlines(""), vec![String::new()]);
    assert_eq!(split_newlines("a\n\nb\n"), vec!["a", "", "b", ""]);
}

#[test]
fn run_arguments() {
    assert_eq!(dotnet_run_args("Erp - Dev", None), vec!["--launch-profile 'Erp - Dev'"]);
    assert_eq!(
        dotnet_run_args("P", Some("--no-build".to_string())),
        vec!["--launch-profile 'P'", "--no-build"]
    );
}

#[test]
fn dotnet_check_outcomes() {
    assert_eq!(dotnet_check(true).ok().unwrap().message, "dotnet is installed");
    let f = dotnet_check(false).err().unwrap();
    assert_eq!(f.message, "Dotnet is not available. Make sure it is installed");
    assert!(f.fix.is_none());
}
