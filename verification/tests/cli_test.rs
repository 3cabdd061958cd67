use so::cli::{join_query_words, split_site_codes, Opts};
use so::config::Config;

#[test]
fn split_site_codes_splits_on_semicolons() {
    assert_eq!(split_site_codes("stackoverflow"), vec![String::from("stackoverflow")]);
    assert_eq!(
        split_site_codes("stackoverflow;unix;superuser"),
        vec![String::from("stackoverflow"), String::from("unix"), String::from("superuser")]
    );
    assert_eq!(split_site_codes(""), vec![String::from("")]);
    assert_eq!(
        split_site_codes("a;;b"),
        vec![String::from("a"), String::from(""), String::from("b")]
    );
}

#[test]
fn join_query_words_uses_single_spaces() {
    let words = vec![String::from("how"), String::from("to"), String::from("sed")];
    assert_eq!(join_query_words(&words), "how to sed");
    assert_eq!(join_query_words(&vec![String::from("one")]), "one");
    assert_eq!(join_query_words(&Vec::new()), "");
}

#[test]
fn opts_carries_the_invocation() {
    let opts = Opts {
        list_sites: false,
        update_sites: true,
        set_api_key: None,
        query: Some(String::from("how to sed")),
        config: Config::default(),
    };
    assert!(opts.update_sites);
    assert_eq!(opts.query.as_deref(), Some("how to sed"));
    assert_eq!(opts.config.limit, 20);
}
