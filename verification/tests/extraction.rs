use puzzle_prep::client::parse_main;
use puzzle_prep::fetch::guess_test_input;

#[test]
fn parse_main_converts_the_main_region() {
    let html = "<html><body><header>nav</header><main><p>CARTHAPHILUS</p></main></body></html>";
    let markup = parse_main(html).unwrap();
    assert_eq!(markup, "CARTHAPHILUS");
}

#[test]
fn parse_main_fails_without_main_region() {
    let err = parse_main("<html><body><p>login required</p></body></html>").unwrap_err();
    assert_eq!(err.message(), "no <main> content region in the page");
}

#[test]
fn parse_main_fails_on_closing_tag_before_opening() {
    assert!(parse_main("</main> and later <main> unclosed").is_err());
}

#[test]
fn parse_main_takes_the_first_region() {
    let html = "x<main><p>first</p></main>y<main><p>second</p></main>z";
    let markup = parse_main(html).unwrap();
    assert!(markup.contains("first"));
    assert!(!markup.contains("second"));
}

#[test]
fn guess_sample_input_picks_longest_block() {
    let a = "abc";
    let b = "x".repeat(50);
    let c = "y".repeat(12);
    let text = format!("intro\n```\n{a}\n```\nmid\n```\n{b}\n```\nmore\n```\n{c}\n```\nend");
    assert_eq!(guess_test_input(&text).unwrap(), b);
}

#[test]
fn guess_sample_input_none_without_blocks() {
    assert!(guess_test_input("no fences here at all").is_none());
    assert!(guess_test_input("").is_none());
}

#[test]
fn guess_sample_input_later_block_wins_ties() {
    let text = "```\nfirst\n```\n```\nlater\n```\n";
    assert_eq!(guess_test_input(text).unwrap(), "later");
}

#[test]
fn guess_sample_input_wants_fences_on_their_own_line() {
    // An opening fence in the middle of a line does not start a block.
    let text = "inline ```
not a block
```
";
    assert!(guess_test_input(text).is_none());
    let text = "before
```
a block
```
";
    assert_eq!(guess_test_input(text).unwrap(), "a block");
}

#[test]
fn guess_sample_input_ignores_dangling_fence() {
    assert!(guess_test_input("```\nnever closed").is_none());
    let text = "```\nclosed\n```\nthen ```\ndangling";
    assert_eq!(guess_test_input(text).unwrap(), "closed");
}

#[test]
fn guess_sample_input_keeps_inner_newlines() {
    let text = "```\n1 2\n3 4\n```\n";
    assert_eq!(guess_test_input(text).unwrap(), "1 2\n3 4");
}
