use starforge::template::{
    available_text, clock_stamp, downloads_text, example_template, example_templates,
    examples_from_stamps, stamp_of_reading, unix_time, found_text, initialized_text,
    local_directory, publish_tags, published_text, removed_text, search_tag_filter, show_title,
    source_details, template_name, usage_command, verified_mark, TemplateSource,
};

fn strings(items: &[&str]) -> Vec<String> {
    items.iter().map(|s| s.to_string()).collect()
}

fn pair(a: &str, b: &str) -> (String, String) {
    (a.to_string(), b.to_string())
}

#[test]
fn search_filters_by_listed_tags() {
    assert_eq!(search_tag_filter(&None), None);
    assert_eq!(
        search_tag_filter(&Some("defi, dex,,".to_string())),
        Some(strings(&["defi", "dex"]))
    );
    assert_eq!(search_tag_filter(&Some(" ".to_string())), Some(Vec::new()));
}

#[test]
fn publishing_defaults_its_tags() {
    assert_eq!(publish_tags(&None), strings(&["soroban", "contract"]));
    assert_eq!(publish_tags(&Some("defi,custom".to_string())), strings(&["defi", "custom"]));
    assert_eq!(publish_tags(&Some(",".to_string())), Vec::<String>::new());
}

#[test]
fn publishing_names_the_template() {
    assert_eq!(template_name(Some("given".to_string()), Some("dir".to_string())), "given");
    assert_eq!(template_name(None, Some("dir".to_string())), "dir");
    assert_eq!(template_name(None, None), "my-template");
}

#[test]
fn source_rows() {
    let git = TemplateSource::Git {
        url: "https://example.org/repo".to_string(),
        branch: Some("dev".to_string()),
    };
    assert_eq!(
        source_details(&git),
        vec![
            pair("Source", "Git Repository"),
            pair("URL", "https://example.org/repo"),
            pair("Branch", "dev"),
        ]
    );
    let git_no_branch = TemplateSource::Git { url: "u".to_string(), branch: None };
    assert_eq!(source_details(&git_no_branch).len(), 2);
    let local = TemplateSource::Local { path: "/tmp/t".to_string() };
    assert_eq!(source_details(&local), vec![pair("Source", "Local"), pair("Path", "/tmp/t")]);
    let builtin = TemplateSource::Builtin { id: "hello".to_string() };
    assert_eq!(source_details(&builtin), vec![pair("Source", "Built-in"), pair("ID", "hello")]);
    assert_eq!(local_directory(&local), Some("/tmp/t".to_string()));
    assert_eq!(local_directory(&builtin), None);
    assert_eq!(local_directory(&git), None);
}

#[test]
fn texts() {
    assert_eq!(verified_mark(true), " \u{2713}");
    assert_eq!(verified_mark(false), "");
    assert_eq!(
        usage_command("uniswap-v2"),
        "starforge new contract my-project --template uniswap-v2 --from marketplace"
    );
    assert_eq!(show_title("governance"), "Template: governance");
    assert_eq!(found_text(2), "  Found 2 template(s):\n");
    assert_eq!(available_text(4), "  4 template(s) available:\n");
    assert_eq!(downloads_text(12), "12 downloads");
    assert_eq!(published_text("mine"), "Template 'mine' published successfully!");
    assert_eq!(removed_text("mine"), "Template 'mine' removed from registry");
    assert_eq!(initialized_text(4), "Template registry initialized with 4 example templates");
}

#[test]
fn the_four_verified_examples() {
    let examples = example_templates().expect("the clock reads after 1970");
    let names: Vec<&str> = examples.iter().map(|e| e.name.as_str()).collect();
    assert_eq!(names, vec!["uniswap-v2", "lending-pool", "governance", "multisig-wallet"]);
    assert_eq!(examples[0].tags, strings(&["defi", "dex", "amm", "swap"]));
    assert_eq!(examples[3].tags, strings(&["wallet", "multisig", "security"]));
    for e in &examples {
        assert!(e.verified);
        assert_eq!(e.downloads, 0);
        assert_eq!(e.version, "1.0.0");
        assert_eq!(e.author, "Stellar Community");
        match &e.source {
            TemplateSource::Git { url, branch } => {
                assert_eq!(url, "https://github.com/stellar/soroban-examples");
                assert_eq!(branch.as_deref(), Some("main"));
            }
            _ => panic!("examples come from Git"),
        }
        // The timestamps come from the clock: RFC 3339, starting with the date.
        assert!(e.created_at.len() >= 25);
        assert_eq!(&e.created_at[4..5], "-");
        assert_eq!(&e.updated_at[10..11], "T");
    }
}

#[test]
fn clock_stamps_are_rfc3339() {
    let stamp = clock_stamp().expect("the clock reads after 1970");
    assert!(stamp.is_ascii());
    assert!(stamp.ends_with("+00:00"));
    assert!(chrono::DateTime::parse_from_rfc3339(&stamp).is_ok());
}

#[test]
fn one_example_with_given_stamps() {
    let e = example_template(2, "c".to_string(), "u".to_string());
    assert_eq!(e.name, "governance");
    assert_eq!(e.tags, strings(&["dao", "governance", "voting"]));
    assert_eq!(e.created_at, "c");
    assert_eq!(e.updated_at, "u");
}

#[test]
fn stamps_of_clock_readings() {
    assert_eq!(stamp_of_reading(Some((0, 0))), Some("1970-01-01T00:00:00+00:00".to_string()));
    assert_eq!(stamp_of_reading(Some((86_400, 0))), Some("1970-01-02T00:00:00+00:00".to_string()));
    assert_eq!(
        stamp_of_reading(Some((1_700_000_000, 250_000_000))),
        Some("2023-11-14T22:13:20.250+00:00".to_string())
    );
    assert_eq!(stamp_of_reading(None), None);
    assert_eq!(stamp_of_reading(Some((u64::MAX, 0))), None);
    assert_eq!(stamp_of_reading(Some((0, 1_500_000_000))), None);
}

#[test]
fn the_clock_reads_after_the_epoch() {
    let (secs, nanos) = unix_time().expect("the clock reads after 1970");
    assert!(secs > 1_600_000_000);
    assert!(nanos < 1_000_000_000);
}

#[test]
fn examples_take_their_stamps_in_order() {
    let stamps: Vec<Option<String>> = (0..8).map(|k| Some(format!("stamp-{}", k))).collect();
    let examples = examples_from_stamps(&stamps).expect("every stamp is there");
    assert_eq!(examples.len(), 4);
    assert_eq!(examples[1].name, "lending-pool");
    assert_eq!(examples[1].created_at, "stamp-2");
    assert_eq!(examples[1].updated_at, "stamp-3");
    assert_eq!(examples[3].updated_at, "stamp-7");
    let mut missing = stamps.clone();
    missing[5] = None;
    assert!(examples_from_stamps(&missing).is_none());
}
