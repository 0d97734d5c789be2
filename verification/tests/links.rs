use link_moderator::webhook::links::{
    redact, rules, scan, BrokenRule, LinkCategory, MatchRule, Redaction, CLOUD_DRIVE_PATTERN,
    FILE_SHARING_PATTERN, PLACEHOLDER, SHORTENER_PATTERN,
};

fn pass(category: LinkCategory, text: &str) -> Redaction {
    Redaction { category, text: text.to_string() }
}

#[test]
fn the_rules_in_force_are_three_in_a_fixed_order() {
    assert_eq!(
        rules(),
        vec![
            MatchRule { category: LinkCategory::FileSharing, pattern: FILE_SHARING_PATTERN },
            MatchRule { category: LinkCategory::CloudDrive, pattern: CLOUD_DRIVE_PATTERN },
            MatchRule { category: LinkCategory::Shortener, pattern: SHORTENER_PATTERN },
        ]
    );
    assert_eq!(PLACEHOLDER, "[Potentially unsafe link removed]");
}

#[test]
fn a_text_without_links_matches_no_rule() {
    for text in [
        "",
        "Thanks, this fixed it for me.",
        "see https://example.com/docs and http://localhost:8000/",
        "dropbox.com/s/abc is where I put it",
        "https://dropbox.com",
        "https://dropbox.com/",
        "https://notdropbox.org/s/abc",
        "ftp://dropbox.com/s/abc",
        "https://bit.ly",
    ] {
        assert_eq!(scan(&rules(), text), Ok(vec![]), "{:?}", text);
        assert_eq!(redact(&rules(), text), Ok(vec![]), "{:?}", text);
    }
}

#[test]
fn each_category_is_found_by_its_rule() {
    assert_eq!(
        scan(&rules(), "get it at https://www.dropbox.com/s/abc/file.zip"),
        Ok(vec![LinkCategory::FileSharing])
    );
    assert_eq!(
        scan(&rules(), "http://1drv.com/x"),
        Ok(vec![LinkCategory::FileSharing])
    );
    assert_eq!(
        scan(&rules(), "https://drive.google.com/file/d/1/view"),
        Ok(vec![LinkCategory::CloudDrive])
    );
    assert_eq!(scan(&rules(), "https://bit.ly/3xyz"), Ok(vec![LinkCategory::Shortener]));
    assert_eq!(scan(&rules(), "go to http://www.t.co/a!"), Ok(vec![LinkCategory::Shortener]));
}

#[test]
fn several_rules_may_match_one_text() {
    assert_eq!(
        scan(&rules(), "https://tinyurl.com/a then https://box.com/b"),
        Ok(vec![LinkCategory::FileSharing, LinkCategory::Shortener])
    );
    assert_eq!(
        scan(
            &rules(),
            "https://bit.ly/a https://drive.google.com/b https://icloud.com/c"
        ),
        Ok(vec![LinkCategory::FileSharing, LinkCategory::CloudDrive, LinkCategory::Shortener])
    );
}

#[test]
fn a_pass_puts_the_placeholder_where_the_link_was() {
    assert_eq!(
        redact(&rules(), "see https://bit.ly/abc now"),
        Ok(vec![pass(LinkCategory::Shortener, "see [Potentially unsafe link removed] now")])
    );
    assert_eq!(
        redact(&rules(), "(https://drive.google.com/file/d/1/view)"),
        Ok(vec![pass(LinkCategory::CloudDrive, "([Potentially unsafe link removed])")])
    );
    assert_eq!(
        redact(&rules(), "https://www.mediafire.com/file/x\nnext line"),
        Ok(vec![pass(LinkCategory::FileSharing, "[Potentially unsafe link removed]\nnext line")])
    );
}

#[test]
fn passes_add_up_in_the_order_of_the_rules() {
    assert_eq!(
        redact(&rules(), "a https://bit.ly/y and https://dropbox.com/s/x end"),
        Ok(vec![
            pass(
                LinkCategory::FileSharing,
                "a https://bit.ly/y and [Potentially unsafe link removed] end"
            ),
            pass(
                LinkCategory::Shortener,
                "a [Potentially unsafe link removed] and [Potentially unsafe link removed] end"
            ),
        ])
    );
}

#[test]
fn a_pass_takes_out_every_match_of_its_rule() {
    assert_eq!(
        redact(&rules(), "https://bit.ly/a and https://t.co/b"),
        Ok(vec![pass(
            LinkCategory::Shortener,
            "[Potentially unsafe link removed] and [Potentially unsafe link removed]"
        )])
    );
    assert_eq!(
        redact(&rules(), "x https://box.com/1 y https://www.dropbox.com/2 z https://1drv.com/3"),
        Ok(vec![pass(
            LinkCategory::FileSharing,
            "x [Potentially unsafe link removed] y [Potentially unsafe link removed] z [Potentially unsafe link removed]"
        )])
    );
}

#[test]
fn a_rule_that_matched_what_an_earlier_pass_took_out_still_has_its_pass() {
    let text = "https://dropbox.com/s?next=https://bit.ly/a";
    assert_eq!(
        scan(&rules(), text),
        Ok(vec![LinkCategory::FileSharing, LinkCategory::Shortener])
    );
    assert_eq!(
        redact(&rules(), text),
        Ok(vec![
            pass(LinkCategory::FileSharing, "[Potentially unsafe link removed]"),
            pass(LinkCategory::Shortener, "[Potentially unsafe link removed]"),
        ])
    );
}

#[test]
fn a_broken_pattern_fails_the_scan_with_its_category() {
    let broken = vec![
        MatchRule { category: LinkCategory::FileSharing, pattern: "a+" },
        MatchRule { category: LinkCategory::CloudDrive, pattern: "(" },
        MatchRule { category: LinkCategory::Shortener, pattern: "[" },
    ];
    assert_eq!(scan(&broken, "aaa"), Err(BrokenRule { category: LinkCategory::CloudDrive }));
    assert_eq!(redact(&broken, "aaa"), Err(BrokenRule { category: LinkCategory::CloudDrive }));
}

#[test]
fn rules_of_the_caller_are_applied_like_those_in_force() {
    let own = vec![
        MatchRule { category: LinkCategory::Shortener, pattern: "q+" },
        MatchRule { category: LinkCategory::FileSharing, pattern: "z" },
        MatchRule { category: LinkCategory::CloudDrive, pattern: "x" },
    ];
    assert_eq!(
        scan(&own, "xxqqx"),
        Ok(vec![LinkCategory::Shortener, LinkCategory::CloudDrive])
    );
    assert_eq!(
        redact(&own, "xxqqx"),
        Ok(vec![
            pass(LinkCategory::Shortener, "xx[Potentially unsafe link removed]x"),
            pass(
                LinkCategory::CloudDrive,
                "[Potentially unsafe link removed][Potentially unsafe link removed][Potentially unsafe link removed][Potentially unsafe link removed]"
            ),
        ])
    );
    assert_eq!(scan(&Vec::new(), "xxqqx"), Ok(vec![]));
    assert_eq!(redact(&Vec::new(), "xxqqx"), Ok(vec![]));
}
