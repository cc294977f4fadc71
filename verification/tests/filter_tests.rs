use rotire::filter::RotireFilter;
use rotire::model::RotireFile;

fn plain_file(name: &str) -> RotireFile {
    RotireFile {
        name: name.to_string(),
        size: 5,
        modified_at: 1,
        modified_unavailable: false,
    }
}

#[test]
fn test_rotire_filter_suffix_ok() {
    let filter = RotireFilter::Suffix { value: ".foo".to_string() };
    let file = plain_file("test.foo");
    assert_eq!(filter.satisfies(&file), true);
}

#[test]
fn test_rotire_filter_suffix_nok() {
    let filter = RotireFilter::Suffix { value: ".foo".to_string() };
    let file = plain_file("test.bar");
    assert_eq!(filter.satisfies(&file), false);
}

#[test]
fn test_rotire_filter_prefix_ok() {
    let filter = RotireFilter::Prefix { value: "some-file-".to_string() };
    let file = plain_file("some-file-test.foo");
    assert_eq!(filter.satisfies(&file), true);
}

#[test]
fn test_rotire_filter_prefix_nok() {
    let filter = RotireFilter::Prefix { value: "some-file-".to_string() };
    let file = plain_file("some-fileis-test.foo");
    assert_eq!(filter.satisfies(&file), false);
}

#[test]
fn filter_longer_than_name_rejects() {
    let filter = RotireFilter::Prefix { value: "a-very-long-prefix".to_string() };
    assert_eq!(filter.satisfies(&plain_file("short")), false);
    let filter = RotireFilter::Suffix { value: "a-very-long-suffix".to_string() };
    assert_eq!(filter.satisfies(&plain_file("short")), false);
}

#[test]
fn filter_chain_is_a_conjunction() {
    let prefix = RotireFilter::Prefix { value: "app-".to_string() };
    let suffix = RotireFilter::Suffix { value: ".log".to_string() };
    let both = plain_file("app-night.log");
    let only_prefix = plain_file("app-night.txt");
    let only_suffix = plain_file("cron-night.log");

    assert!(prefix.satisfies(&both) && suffix.satisfies(&both));
    assert!(prefix.satisfies(&only_prefix) && !suffix.satisfies(&only_prefix));
    assert!(!prefix.satisfies(&only_suffix) && suffix.satisfies(&only_suffix));

    let chain = vec![prefix, suffix];
    assert_eq!(rotire::filter::passes_filters(&chain, &both), true);
    assert_eq!(rotire::filter::passes_filters(&chain, &only_prefix), false);
    assert_eq!(rotire::filter::passes_filters(&chain, &only_suffix), false);

    let empty: Vec<RotireFilter> = Vec::new();
    assert_eq!(rotire::filter::passes_filters(&empty, &only_suffix), true);
    assert_eq!(rotire::filter::passes_filters(&empty, &only_prefix), true);
}
