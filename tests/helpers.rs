use og_cli::config::{create_key_url, Config, SearchUrl};
use og_cli::doctor::{command_check, doctor_report_line, fix_to_apply, RemediationKind, Tools};
use og_cli::kubernetes::KubernetesPlugin;
use og_cli::search::{
    api_search_request, join_with_commas, search_url, Language, Ltr, Portal, SearchEnvironment,
};
use og_cli::text::{decimal_string, replace_first_str, str_has_prefix, str_lt};

fn config() -> Config {
    Config {
        sql_password: "pw".to_string(),
        rancher_base_url: "https://rancher.example".to_string(),
        search_urls: SearchUrl {
            test: "https://test".to_string(),
            prod: "https://prod".to_string(),
            oft: "https://oft".to_string(),
        },
    }
}

#[test]
fn language_codes() {
    assert_eq!(Language::LanguageDe.get_language_code(), "de-CH");
    assert_eq!(Language::LanguageEn.get_language_code(), "en-US");
    assert_eq!(Language::LanguageFr.get_language_code(), "fr-CH");
    assert_eq!(Language::LanguageIt.get_language_code(), "it-CH");
    assert_eq!(Language::LanguageNl.get_language_code(), "de-CH");
}

#[test]
fn portal_ids() {
    assert_eq!(Portal::PortalChGalaxus.get_portal_id(), 22);
    assert_eq!(Portal::PortalChDigitec.get_portal_id(), 25);
    assert_eq!(Portal::PortalDe.get_portal_id(), 27);
    assert_eq!(Portal::PortalAt.get_portal_id(), 28);
    assert_eq!(Portal::PortalIt.get_portal_id(), 35);
    assert_eq!(Portal::PortalFr.get_portal_id(), 32);
    assert_eq!(Portal::PortalNl.get_portal_id(), 33);
    assert_eq!(Portal::PortalBe.get_portal_id(), 34);
}

#[test]
fn search_defaults() {
    let r = api_search_request(
        "laptop".to_string(),
        None,
        None,
        None,
        None,
        None,
        None,
        None,
        None,
        None,
        None,
        None,
    );
    assert_eq!(r.search_terms, "laptop");
    assert_eq!(r.portal_id, 22);
    assert_eq!(r.language_code, "de-CH");
    assert_eq!(r.ltr, "False");
    assert_eq!(r.test_group, "");
    assert_eq!(r.skip, 10);
    assert!(!r.only_show_visible);
    assert!(!r.group_variants);
    assert_eq!(r.redirection_take, 1);
    assert_eq!(r.sort_order, "");
    assert_eq!(r.take, 10);
    assert_eq!(r.rewriters, "common_rules_ruleset, replace_rules_ruleset");
}

#[test]
fn search_given_values() {
    let r = api_search_request(
        "phone".to_string(),
        Some(Portal::PortalFr),
        Some(Language::LanguageFr),
        Some(Ltr::LtrOn),
        Some("B".to_string()),
        Some(3),
        Some(true),
        Some(true),
        Some(-1),
        Some("price".to_string()),
        Some(5),
        Some(vec!["a".to_string(), "b".to_string()]),
    );
    assert_eq!(r.portal_id, 32);
    assert_eq!(r.language_code, "fr-CH");
    assert_eq!(r.ltr, "True");
    assert_eq!(r.test_group, "B");
    assert_eq!(r.skip, 3);
    assert!(r.only_show_visible && r.group_variants);
    assert_eq!(r.redirection_take, -1);
    assert_eq!(r.sort_order, "price");
    assert_eq!(r.take, 5);
    assert_eq!(r.rewriters, "a,b");
}

#[test]
fn commas_join() {
    assert_eq!(join_with_commas(&Vec::new()), "");
    assert_eq!(join_with_commas(&vec!["x".to_string()]), "x");
}

#[test]
fn urls_from_config() {
    let c = config();
    assert_eq!(search_url(&c.search_urls, SearchEnvironment::Oft), "https://oft");
    assert_eq!(search_url(&c.search_urls, SearchEnvironment::Test), "https://test");
    assert_eq!(search_url(&c.search_urls, SearchEnvironment::Prod), "https://prod");
    assert_eq!(create_key_url(&c), "https://rancher.example/dashboard/account/create-key");
}

#[test]
fn tool_names() {
    assert_eq!(Tools::Nslookup.name(), "nslookup");
    assert_eq!(Tools::Nmap.name(), "nmap");
    assert_eq!(Tools::Ping.name(), "ping");
}

#[test]
fn command_check_outcomes() {
    let ok = command_check("nmap", true).ok().unwrap();
    assert_eq!(ok.plugin, "nmap");
    assert_eq!(ok.message, "is installed");
    let f = command_check("nmap", false).err().unwrap();
    assert_eq!(f.message, "tool nmap is not available. Make sure it is in the PATH");
    assert_eq!(f.fix, Some(RemediationKind::InstallTool));
    assert_eq!(fix_to_apply(true, &f), Some(RemediationKind::InstallTool));
    assert_eq!(fix_to_apply(false, &f), None);
}

#[test]
fn report_lines() {
    let ok = command_check("ping", true);
    assert_eq!(doctor_report_line(&ok, &None), "\u{2705} ping: is installed");
    let failed = command_check("ping", false);
    assert_eq!(
        doctor_report_line(&failed, &None),
        "\u{274c} ping: tool ping is not available. Make sure it is in the PATH"
    );
    assert_eq!(
        doctor_report_line(&failed, &Some(Ok(()))),
        "\u{2705} Fixed ping: tool ping is not available. Make sure it is in the PATH"
    );
    assert_eq!(
        doctor_report_line(&failed, &Some(Err("nope".to_string()))),
        "\u{274c} Could not fix ping: tool ping is not available. Make sure it is in the PATH : nope"
    );
}

#[test]
fn kubernetes_checks() {
    let p = KubernetesPlugin;
    assert_eq!(p.is_kubeconfig_valid(None).ok().unwrap().message, "kubeconfig is valid");
    let f = p.is_kubeconfig_valid(Some("missing".to_string())).err().unwrap();
    assert_eq!(f.message, "Error while parsing the kubeconfig: missing");
    assert_eq!(f.fix, Some(RemediationKind::CreateEmptyKubeconfig));
    let t = p.is_rancher_token_available(Some("locked".to_string())).err().unwrap();
    assert_eq!(t.message, "Unable to retrieve Rancher token from credential store: locked");
    assert_eq!(t.fix, Some(RemediationKind::AddRancherToken));
    assert_eq!(
        p.is_rancher_token_available(None).ok().unwrap().message,
        "Rancher token found in credential store"
    );
}

#[test]
fn text_helpers() {
    assert!(str_lt("001", "002"));
    assert!(!str_lt("002", "001"));
    assert!(!str_lt("001", "001"));
    assert!(str_lt("ab", "abc"));
    assert!(str_has_prefix("dg-foo", "dg-"));
    assert!(!str_has_prefix("d", "dg-"));
    assert_eq!(replace_first_str("a/v3/b/v3", "v3", "k8s"), "a/k8s/b/v3");
    assert_eq!(replace_first_str("none", "v3", "k8s"), "none");
    assert_eq!(decimal_string(0), "0");
    assert_eq!(decimal_string(18446744073709551615), "18446744073709551615");
}
