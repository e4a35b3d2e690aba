use email_scraper::email::{
    emails_in_text, extract_emails, is_asset_filename, is_common_tld, is_likely_rot13_encoded, is_valid_email,
    normalize_candidate, resolve_candidate,
};
use email_scraper::rot13::{rot13_char, rot13_decode};

#[test]
fn rot13_decodes_obfuscated_address() {
    assert_eq!(rot13_decode("snzvyl@rknzcyr.pbz"), "family@example.com");
    assert_eq!(rot13_decode("cvzvyl@rknzcyr.pbz"), "pimily@example.com");
}

#[test]
fn rot13_keeps_case_and_other_characters() {
    assert_eq!(rot13_decode("Hello, World-42!"), "Uryyb, Jbeyq-42!");
    assert_eq!(rot13_char('z'), 'm');
    assert_eq!(rot13_char('N'), 'A');
    assert_eq!(rot13_char('7'), '7');
}

#[test]
fn rot13_twice_is_identity_on_letters() {
    for s in ["abcdefghijklmnopqrstuvwxyz", "ABCDEFGHIJKLMNOPQRSTUVWXYZ", "HelloWorld", ""] {
        assert_eq!(rot13_decode(&rot13_decode(s)), s);
    }
}

#[test]
fn asset_filename_is_rejected() {
    assert!(is_asset_filename("foo@bar.png"));
    assert_eq!(resolve_candidate("foo@bar.png"), None);
    assert!(is_asset_filename("image@2x.png.com"));
    assert!(is_valid_email("image@2x.png.com"));
    assert_eq!(resolve_candidate("image@2x.png.com"), None);
    assert!(!is_asset_filename("user@example.com"));
}

#[test]
fn unknown_tld_is_rejected() {
    assert!(!is_valid_email("user@example.xx"));
    assert_eq!(resolve_candidate("user@example.xx"), None);
}

#[test]
fn full_validation_cases() {
    assert!(is_valid_email("first.last+tag@mail.example.co"));
    assert!(is_valid_email("User@Example.COM"));
    assert!(!is_valid_email("@example.com"));
    assert!(!is_valid_email("user@.com"));
    assert!(!is_valid_email("user@example..com"));
    assert!(!is_valid_email("user@example.c"));
    assert!(!is_valid_email("user@com"));
    assert!(!is_valid_email("user example@example.com"));
}

#[test]
fn common_tlds() {
    assert!(is_common_tld("com"));
    assert!(is_common_tld("ly"));
    assert!(!is_common_tld("xx"));
    assert!(!is_common_tld("COM"));
    assert!(!is_common_tld(""));
}

#[test]
fn rot13_heuristic() {
    assert!(is_likely_rot13_encoded("cvzvyl@rknzcyr.pbz"));
    assert!(!is_likely_rot13_encoded("family@example.com"));
    assert!(!is_likely_rot13_encoded("no-at-sign.pbz"));
}

#[test]
fn normalization_trims_strips_and_lowercases() {
    assert_eq!(normalize_candidate("  ..Foo@Example.COM \n"), "foo@example.com");
    assert_eq!(normalize_candidate("%+bob@site.org"), "bob@site.org");
    assert_eq!(normalize_candidate("   "), "");
}

#[test]
fn extraction_reports_decoded_address() {
    let body = "<p>Write to cvzvyl@rknzcyr.pbz today</p>";
    assert_eq!(emails_in_text(body), vec!["pimily@example.com".to_string()]);
    let body = "<p>Write to snzvyl@rknzcyr.pbz today</p>";
    assert_eq!(emails_in_text(body), vec!["family@example.com".to_string()]);
}

#[test]
fn extraction_keeps_plain_and_drops_bad() {
    let body = "<a href=\"mailto:Info@Example.com\">x</a> bg: url(logo@2x.png.com) \
                junk@host.xx ok@site.org";
    assert_eq!(
        emails_in_text(body),
        vec!["info@example.com".to_string(), "ok@site.org".to_string()]
    );
}

#[test]
fn extraction_of_empty_text() {
    assert!(emails_in_text("").is_empty());
    assert!(extract_emails("").is_empty());
    assert!(extract_emails("no address here").is_empty());
}

#[test]
fn raw_matches_keep_asset_names() {
    assert_eq!(extract_emails("foo@bar.png"), vec!["foo@bar.png".to_string()]);
}

#[test]
fn raw_matches_keep_encoded_form() {
    assert_eq!(
        extract_emails("<p>Mail: cvzvyl@rknzcyr.pbz</p>"),
        vec!["cvzvyl@rknzcyr.pbz".to_string()]
    );
}

#[test]
fn raw_matches_keep_case_and_order() {
    assert_eq!(
        extract_emails("write to a@b.com or C@D.ORG."),
        vec!["a@b.com".to_string(), "C@D.ORG".to_string()]
    );
    assert_eq!(
        extract_emails("a@b.com A@B.COM a@b.com"),
        vec!["a@b.com".to_string(), "A@B.COM".to_string(), "a@b.com".to_string()]
    );
}

#[test]
fn raw_matches_keep_leading_punctuation() {
    assert_eq!(extract_emails("(..x@y.com)"), vec!["..x@y.com".to_string()]);
    assert_eq!(normalize_candidate("..x@y.com"), "x@y.com");
}
