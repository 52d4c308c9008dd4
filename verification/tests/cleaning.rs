use puzzle_prep::client::clean_response;

#[test]
fn test_clean_response() {
    let cases = [
        (
            "That's the right answer! You are one gold star closer to finding the Chief Historian.\n\nYou have completed Day 19! You can [Shareon [Bluesky](https://bsky.app/intent/compose?text=I+just+completed+%22Linen+Layout%22+%2D+Day+19+%2D+Advent+of+Code+2024+%23AdventOfCode+https%3A%2F%2Fadventofcode%2Ecom%2F2024%2Fday%2F19) [Twitter](https://twitter.com/intent/tweet?text=I+just+completed+%22Linen+Layout%22+%2D+Day+19+%2D+Advent+of+Code+2024&url=https%3A%2F%2Fadventofcode%2Ecom%2F2024%2Fday%2F19&related=ericwastl&hashtags=AdventOfCode) [Mastodon](javascript:void(0);)] this victory or [[Return to Your Advent Calendar]](/2024).",
            "That's the right answer! You are one gold star closer to finding the Chief Historian.\n\nYou have completed Day 19!\n[[Return to Your Advent Calendar]](/2024)."
        ),
        (
            "&#39; &gt; &lt; &quot;",
            "' > < \"",
        ),
        (
            "&quot;air quotes&quot;",
            "\"air quotes\"",
        ),
    ];
    for (input, output) in cases {
        assert_eq!(output, &clean_response(input.to_owned()).unwrap());
    }
}

#[test]
fn clean_unescapes_entities() {
    assert_eq!(clean_response("&#39;hi&#39; &gt;&lt;".to_owned()).unwrap(), "'hi' ><");
}

#[test]
fn clean_is_identity_on_clean_text() {
    let text = "Nothing to see here: plain text, no entities.";
    let once = clean_response(text.to_owned()).unwrap();
    assert_eq!(once, text);
    let twice = clean_response(once.clone()).unwrap();
    assert_eq!(twice, once);
}

#[test]
fn clean_removes_single_puzzle_share_sentence() {
    let input = "Done!\nYou can [Share] on [Mastodon] this puzzle.\nMore text.";
    let cleaned = clean_response(input.to_owned()).unwrap();
    assert_eq!(cleaned, "Done!\nMore text.");
}

#[test]
fn clean_applies_entities_before_boilerplate() {
    // The quote entity inside the share sentence is unescaped first, and
    // the sentence still matches afterwards.
    let input = "Star!\nYou can &quot;share&quot; via Mastodon, celebrating this puzzle.\nRest.";
    let cleaned = clean_response(input.to_owned()).unwrap();
    assert_eq!(cleaned, "Star!\nRest.");
}
