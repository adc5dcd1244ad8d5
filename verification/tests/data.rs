use authgate::config::{Args, Locale};
use authgate::content::{ArticleMetadata, Str};

#[test]
fn locale_codes() {
    assert_eq!(Locale::En.code(), "en");
    assert_eq!(Locale::Zh.code(), "zh");
    assert_ne!(Locale::En, Locale::Zh);
}

#[test]
fn args_carry_their_fields() {
    let a = Args { config: String::from("/etc/site.yaml"), verbose: 2 };
    assert_eq!(a.config, "/etc/site.yaml");
    assert_eq!(a.verbose, 2);
}

#[test]
fn str_yields_its_text_either_way() {
    let owned = Str::Owned(String::from("My Blog"));
    let fixed = Str::Static("Author");
    assert_eq!(owned.as_str(), "My Blog");
    assert_eq!(fixed.as_str(), "Author");
}

#[test]
fn article_metadata_is_plain_data() {
    let m = ArticleMetadata {
        title: Some(String::from("Hello")),
        excerpt: None,
        created: String::from("January 01, 2024  00:00"),
        updated: None,
        url: String::from("/article/hello"),
        year: 2024,
    };
    let copy = m.clone();
    assert_eq!(copy.title.as_deref(), Some("Hello"));
    assert_eq!(copy.year, 2024);
    assert!(copy.excerpt.is_none());
}
