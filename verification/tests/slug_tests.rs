use note_task_api::CreateTaskRequestInternal;
use note_task_api::TaskRepository;
use note_task_api::generate_random_suffix;
use note_task_api::slugify;

#[test]
fn slugify_basic() {
    assert_eq!(slugify("Buy milk"), "buy-milk");
    assert_eq!(slugify("Hello World"), "hello-world");
    assert_eq!(slugify("hello"), "hello");
}

#[test]
fn slugify_collapses_and_trims() {
    assert_eq!(slugify("  Hello,  World!! 123 "), "hello-world-123");
    assert_eq!(slugify("---"), "");
    assert_eq!(slugify(""), "");
    assert_eq!(slugify("A--B"), "a-b");
    assert_eq!(slugify("...leading and trailing..."), "leading-and-trailing");
}

#[test]
fn slugify_non_ascii_becomes_separator() {
    assert_eq!(slugify("caf\u{e9} au lait"), "caf-au-lait");
}

#[test]
fn slugify_idempotent_on_samples() {
    let samples = [
        "Buy milk",
        "  Hello,  World!! 123 ",
        "---",
        "",
        "A--B",
        "caf\u{e9} au lait",
        "already-a-slug",
    ];
    for s in samples {
        let once = slugify(s);
        assert_eq!(slugify(&once), once);
    }
}

#[test]
fn random_suffix_is_four_hex_chars() {
    for _ in 0..20 {
        let s = generate_random_suffix();
        assert_eq!(s.len(), 4);
        assert!(s.chars().all(|c| c.is_ascii_lowercase() || c.is_ascii_digit()));
    }
}

#[test]
fn unique_slug_resolves_collisions() {
    let repo = TaskRepository::new();
    let first = repo.generate_unique_slug("Buy milk").unwrap();
    assert_eq!(first, "buy-milk");
}

#[test]
fn colliding_titles_get_distinct_slugs() {
    let mut repo = TaskRepository::new();
    let t1 = repo
        .create(CreateTaskRequestInternal {
            title: String::from("Buy milk"),
            description: None,
            user_id: 7,
        })
        .unwrap();
    let t2 = repo
        .create(CreateTaskRequestInternal {
            title: String::from("Buy milk"),
            description: None,
            user_id: 7,
        })
        .unwrap();
    assert_eq!(t1.slug, "buy-milk");
    assert_ne!(t1.slug, t2.slug);
    assert!(t2.slug.starts_with("buy-milk-"));
    assert_eq!(t2.slug.len(), "buy-milk".len() + 5);
}
