//! The product-search helper: portals, languages, and the request parameters of an API
//! search with their defaults. Sending the request happens elsewhere.

use vstd::prelude::*;

use crate::config::SearchUrl;

verus! {

/// The search command.
pub struct Search;

#[derive(Clone, Copy, Debug, PartialEq, Eq, Structural)]
pub enum Language {
    LanguageDe,
    LanguageEn,
    LanguageFr,
    LanguageIt,
    LanguageNl,
}

pub open spec fn language_code(l: Language) -> Seq<char> {
    match l {
        Language::LanguageDe => "de-CH"@,
        Language::LanguageEn => "en-US"@,
        Language::LanguageFr => "fr-CH"@,
        Language::LanguageIt => "it-CH"@,
        Language::LanguageNl => "de-CH"@,
    }
}

impl Language {
    /// The language tag that the search API expects.
    pub fn get_language_code(&self) -> (r: &'static str)
        ensures
            r@ == language_code(*self),
    {
        match self {
            Language::LanguageDe => "de-CH",
            Language::LanguageEn => "en-US",
            Language::LanguageFr => "fr-CH",
            Language::LanguageIt => "it-CH",
            Language::LanguageNl => "de-CH",
        }
    }
}

#[derive(Clone, Copy, Debug, PartialEq, Eq, Structural)]
pub enum Portal {
    PortalChGalaxus,
    PortalChDigitec,
    PortalDe,
    PortalIt,
    PortalFr,
    PortalNl,
    PortalBe,
    PortalAt,
}

pub open spec fn portal_id(p: Portal) -> i8 {
    match p {
        Portal::PortalChGalaxus => 22,
        Portal::PortalChDigitec => 25,
        Portal::PortalDe => 27,
        Portal::PortalAt => 28,
        Portal::PortalIt => 35,
        Portal::PortalFr => 32,
        Portal::PortalNl => 33,
        Portal::PortalBe => 34,
    }
}

impl Portal {
    /// The portal's numeric id in the search API.
    pub fn get_portal_id(&self) -> (r: i8)
        ensures
            r == portal_id(*self),
    {
        match self {
            Portal::PortalChGalaxus => 22,
            Portal::PortalChDigitec => 25,
            Portal::PortalDe => 27,
            Portal::PortalAt => 28,
            Portal::PortalIt => 35,
            Portal::PortalFr => 32,
            Portal::PortalNl => 33,
            Portal::PortalBe => 34,
        }
    }
}

#[derive(Clone, Copy, Debug, PartialEq, Eq, Structural)]
pub enum SearchEnvironment {
    Oft,
    Test,
    Prod,
}

#[derive(Clone, Copy, Debug, PartialEq, Eq, Structural)]
pub enum Ltr {
    LtrOn,
    LtrOff,
}

/// The search API's URL for an environment.
pub fn search_url(urls: &SearchUrl, environment: SearchEnvironment) -> (r: String)
    ensures
        r@ == match environment {
            SearchEnvironment::Oft => urls.oft@,
            SearchEnvironment::Test => urls.test@,
            SearchEnvironment::Prod => urls.prod@,
        },
{
    match environment {
        SearchEnvironment::Oft => urls.oft.clone(),
        SearchEnvironment::Test => urls.test.clone(),
        SearchEnvironment::Prod => urls.prod.clone(),
    }
}

/// The parameters of an API search, each option settled.
pub struct ApiSearchRequest {
    pub search_terms: String,
    pub portal_id: i8,
    pub language_code: String,
    /// The `X-DG-LtrEnabled` header: `True` or `False`.
    pub ltr: String,
    pub test_group: String,
    pub skip: u8,
    pub only_show_visible: bool,
    pub group_variants: bool,
    pub redirection_take: i8,
    pub sort_order: String,
    pub take: u8,
    /// The `X-DG-Rewriters` header: the rewriters joined by commas.
    pub rewriters: String,
}

/// Strings joined by `sep`.
pub open spec fn joined(parts: Seq<Seq<char>>, sep: Seq<char>) -> Seq<char>
    decreases parts.len(),
{
    if parts.len() == 0 {
        Seq::empty()
    } else if parts.len() == 1 {
        parts[0]
    } else {
        joined(parts.drop_last(), sep) + sep + parts.last()
    }
}

pub open spec fn strings_view(v: Seq<String>) -> Seq<Seq<char>> {
    v.map_values(|s: String| s@)
}

/// The rewriters used when none are given.
pub open spec fn default_rewriters() -> Seq<char> {
    "common_rules_ruleset, replace_rules_ruleset"@
}

/// `parts` joined by commas.
pub fn join_with_commas(parts: &Vec<String>) -> (r: String)
    ensures
        r@ == joined(strings_view(parts@), ","@),
{
    let ghost v = strings_view(parts@);
    let n = parts.len();
    let mut out = String::new();
    let mut i: usize = 0;
    assert(v.take(0) =~= Seq::<Seq<char>>::empty());
    while i < n
        invariant
            n == parts@.len(),
            v == strings_view(parts@),
            i <= n,
            out@ == joined(v.take(i as int), ","@),
        decreases n - i,
    {
        if i > 0 {
            out.append(",");
        }
        out.append(parts[i].as_str());
        proof {
            assert(v[i as int] == parts@[i as int]@);
            assert(v.take(i + 1).drop_last() =~= v.take(i as int));
            if i == 0 {
                assert(out@ =~= joined(v.take(1), ","@));
            } else {
                assert(out@ =~= joined(v.take(i + 1), ","@));
            }
        }
        i = i + 1;
    }
    assert(v.take(n as int) =~= v);
    out
}

/// Settles the options of an API search: portal 22, `de-CH`, learning-to-rank off, take 10,
/// skip 10, redirection take 1, visible-only and variant grouping off, no sort order, no
/// test group and the two default rule sets, wherever no value is given.
pub fn api_search_request(
    search_terms: String,
    portal: Option<Portal>,
    language: Option<Language>,
    ltr: Option<Ltr>,
    test_group: Option<String>,
    skip: Option<u8>,
    only_show_visible: Option<bool>,
    group_variants: Option<bool>,
    redirection_take: Option<i8>,
    sort_order: Option<String>,
    take: Option<u8>,
    rewriters: Option<Vec<String>>,
) -> (r: ApiSearchRequest)
    ensures
        r.search_terms == search_terms,
        r.portal_id == match portal {
            Some(p) => portal_id(p),
            None => 22,
        },
        r.language_code@ == match language {
            Some(l) => language_code(l),
            None => "de-CH"@,
        },
        r.ltr@ == match ltr {
            Some(Ltr::LtrOn) => "True"@,
            _ => "False"@,
        },
        r.test_group@ == match test_group {
            Some(t) => t@,
            None => Seq::empty(),
        },
        r.skip == match skip {
            Some(s) => s,
            None => 10,
        },
        r.only_show_visible == match only_show_visible {
            Some(b) => b,
            None => false,
        },
        r.group_variants == match group_variants {
            Some(b) => b,
            None => false,
        },
        r.redirection_take == match redirection_take {
            Some(t) => t,
            None => 1,
        },
        r.sort_order@ == match sort_order {
            Some(s) => s@,
            None => Seq::empty(),
        },
        r.take == match take {
            Some(t) => t,
            None => 10,
        },
        r.rewriters@ == match rewriters {
            Some(v) => joined(strings_view(v@), ","@),
            None => default_rewriters(),
        },
{
    let portal_id = match portal {
        None => 22,
        Some(p) => p.get_portal_id(),
    };
    let language_code = match language {
        None => String::from_str("de-CH"),
        Some(l) => String::from_str(l.get_language_code()),
    };
    let ltr = match ltr {
        Some(Ltr::LtrOn) => String::from_str("True"),
        _ => String::from_str("False"),
    };
    let rewriters = match rewriters {
        None => String::from_str("common_rules_ruleset, replace_rules_ruleset"),
        Some(v) => join_with_commas(&v),
    };
    ApiSearchRequest {
        search_terms,
        portal_id,
        language_code,
        ltr,
        test_group: match test_group {
            Some(t) => t,
            None => String::new(),
        },
        skip: match skip {
            Some(s) => s,
            None => 10,
        },
        only_show_visible: match only_show_visible {
            Some(b) => b,
            None => false,
        },
        group_variants: match group_variants {
            Some(b) => b,
            None => false,
        },
        redirection_take: match redirection_take {
            Some(t) => t,
            None => 1,
        },
        sort_order: match sort_order {
            Some(s) => s,
            None => String::new(),
        },
        take: match take {
            Some(t) => t,
            None => 10,
        },
        rewriters,
    }
}

} // verus!
