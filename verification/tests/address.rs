use email_verify::address::count_separators;
use email_verify::{EmailAddress, InvalidFormat};

#[test]
fn parse_splits_a_plain_address() {
    let address = EmailAddress::parse("test@example.com").unwrap();
    assert_eq!(address.local_part(), "test");
    assert_eq!(address.domain(), "example.com");
    assert_eq!(address.to_text(), "test@example.com");
}

#[test]
fn parse_keeps_tags_and_subdomains() {
    let address = EmailAddress::parse("user.name+tag@mail.example.co.uk").unwrap();
    assert_eq!(address.local_part(), "user.name+tag");
    assert_eq!(address.domain(), "mail.example.co.uk");
}

#[test]
fn parse_rejects_text_without_separator() {
    assert_eq!(EmailAddress::parse("Abc.example.com"), Err(InvalidFormat));
    assert_eq!(EmailAddress::parse(""), Err(InvalidFormat));
    assert_eq!(EmailAddress::parse("plain"), Err(InvalidFormat));
}

#[test]
fn parse_rejects_two_unescaped_separators() {
    assert_eq!(EmailAddress::parse("a@b@example.com"), Err(InvalidFormat));
    assert_eq!(EmailAddress::parse("a@example.com@"), Err(InvalidFormat));
    assert_eq!(EmailAddress::parse("first@example.com second@example.com"), Err(InvalidFormat));
}

#[test]
fn parse_rejects_a_separator_that_is_only_quoted() {
    assert_eq!(count_separators("\"a@b\".example.com"), 0);
    assert_eq!(EmailAddress::parse("\"a@b\".example.com"), Err(InvalidFormat));
}

#[test]
fn parse_accepts_a_quoted_separator_beside_the_real_one() {
    assert_eq!(count_separators("\"a@b\"@example.com"), 1);
    let address = EmailAddress::parse("\"a@b\"@example.com").unwrap();
    assert_eq!(address.local_part(), "\"a@b\"");
    assert_eq!(address.domain(), "example.com");
}

#[test]
fn count_separators_honours_quotes_and_backslashes() {
    assert_eq!(count_separators(""), 0);
    assert_eq!(count_separators("@"), 1);
    assert_eq!(count_separators("a@b"), 1);
    assert_eq!(count_separators("a@b@c"), 2);
    assert_eq!(count_separators("a\\@b@c"), 1);
    assert_eq!(count_separators("a\\\\@b"), 1);
    assert_eq!(count_separators("\"@@@\"@x"), 1);
    assert_eq!(count_separators("\"\\\"@\"@x"), 1);
    assert_eq!(count_separators("\"open@x"), 0);
}

#[test]
fn parse_rejects_empty_parts() {
    assert_eq!(EmailAddress::parse("@example.com"), Err(InvalidFormat));
    assert_eq!(EmailAddress::parse("user@"), Err(InvalidFormat));
    assert_eq!(EmailAddress::parse("@"), Err(InvalidFormat));
}

#[test]
fn parse_rejects_a_domain_without_dot() {
    assert_eq!(EmailAddress::parse("user@localhost"), Err(InvalidFormat));
}

#[test]
fn parse_rejects_control_characters() {
    assert_eq!(EmailAddress::parse("user@example.com\r\n"), Err(InvalidFormat));
    assert_eq!(EmailAddress::parse("us\u{0}er@example.com"), Err(InvalidFormat));
    assert_eq!(EmailAddress::parse("user@exam\tple.com"), Err(InvalidFormat));
    assert_eq!(EmailAddress::parse("user@example.com\u{7f}"), Err(InvalidFormat));
}

#[test]
fn parse_rejects_what_the_grammar_rejects() {
    // One separator, no control character, a dotted domain: only the
    // grammar of addresses speaks against these.
    assert_eq!(EmailAddress::parse("a b@example.com"), Err(InvalidFormat));
    assert_eq!(EmailAddress::parse("user@example..com"), Err(InvalidFormat));
    assert_eq!(EmailAddress::parse("user@-example.com"), Err(InvalidFormat));
    assert_eq!(EmailAddress::parse("us(er@example.com"), Err(InvalidFormat));
}

#[test]
fn parse_rejects_a_display_name() {
    assert_eq!(EmailAddress::parse("Simon <simon@example.com>"), Err(InvalidFormat));
}

#[test]
fn parse_passes_international_domains_through() {
    let address = EmailAddress::parse("jos\u{e9}@b\u{fc}cher.example").unwrap();
    assert_eq!(address.local_part(), "jos\u{e9}");
    assert_eq!(address.domain(), "b\u{fc}cher.example");
}

#[test]
fn from_parts_accepts_parts_that_fit_the_text() {
    let address =
        EmailAddress::from_parts("user@example.com", "user".to_string(), "example.com".to_string())
            .unwrap();
    assert_eq!(address.local_part(), "user");
    assert_eq!(address.domain(), "example.com");
}

#[test]
fn from_parts_rejects_parts_that_do_not_make_the_text() {
    assert_eq!(
        EmailAddress::from_parts("user@example.com", "use".to_string(), "example.com".to_string()),
        Err(InvalidFormat)
    );
    assert_eq!(
        EmailAddress::from_parts(
            "Simon <simon@example.com>",
            "simon".to_string(),
            "example.com".to_string()
        ),
        Err(InvalidFormat)
    );
}

#[test]
fn from_parts_rejects_whitespace_in_the_domain() {
    assert_eq!(
        EmailAddress::from_parts("user@exa mple.com", "user".to_string(), "exa mple.com".to_string()),
        Err(InvalidFormat)
    );
    assert_eq!(
        EmailAddress::from_parts(
            "user@exa\u{a0}mple.com",
            "user".to_string(),
            "exa\u{a0}mple.com".to_string()
        ),
        Err(InvalidFormat)
    );
}

#[test]
fn from_parts_rejects_a_split_at_an_escaped_separator() {
    // The only unescaped `@` is the first one, so the local part named here
    // holds it.
    assert_eq!(
        EmailAddress::from_parts("a@\"b@c.d\"", "a@\"b".to_string(), "c.d\"".to_string()),
        Err(InvalidFormat)
    );
}

#[test]
fn clone_of_an_address_is_equal() {
    let address = EmailAddress::parse("test@example.com").unwrap();
    assert_eq!(address.clone(), address);
}
