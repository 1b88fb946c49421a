use std::borrow::Cow;

use validator::validate_email;
use validator::ValidateEmail;

#[test]
fn test_validate_email() {
    let tests = vec![
        ("email@here.com", true),
        ("weirder-email@here.and.there.com", true),
        (r#"!def!xyz%abc@example.com"#, true),
        ("email@[127.0.0.1]", true),
        ("email@[2001:dB8::1]", true),
        ("email@[2001:dB8:0:0:0:0:0:1]", true),
        ("email@[::fffF:127.0.0.1]", true),
        ("example@valid-----hyphens.com", true),
        ("example@valid-with-hyphens.com", true),
        ("test@domain.with.idn.tld.उदाहरण.परीक्षा", true),
        (r#""test@test"@example.com"#, false),
        // a label has 63 characters at most
        ("a@atm.aaaaaaaaaaaaaaaaaaaaaaaaaaaaaaaaaaaaaaaaaaaaaaaaaaaaaaaaaaaaaaa", true),
        ("a@aaaaaaaaaaaaaaaaaaaaaaaaaaaaaaaaaaaaaaaaaaaaaaaaaaaaaaaaaaaaaaa.atm", true),
        (
            "a@aaaaaaaaaaaaaaaaaaaaaaaaaaaaaaaaaaaaaaaaaaaaaaaaaaaaaaaaaaaaaaa.bbbbbbbbbb.atm",
            true,
        ),
        // 64 * a
        ("a@atm.aaaaaaaaaaaaaaaaaaaaaaaaaaaaaaaaaaaaaaaaaaaaaaaaaaaaaaaaaaaaaaaa", false),
        ("", false),
        ("abc", false),
        ("abc@", false),
        ("abc@bar", true),
        ("a @x.cz", false),
        ("abc@.com", false),
        ("something@@somewhere.com", false),
        ("email@127.0.0.1", true),
        ("email@[127.0.0.256]", false),
        ("email@[2001:db8::12345]", false),
        ("email@[2001:db8:0:0:0:0:1]", false),
        ("email@[::ffff:127.0.0.256]", false),
        ("example@invalid-.com", false),
        ("example@-invalid.com", false),
        ("example@invalid.com-", false),
        ("example@inv-.alid-.com", false),
        ("example@inv-.-alid.com", false),
        (r#"test@example.com\n\n<script src="x.js">"#, false),
        (r#""\\\011"@here.com"#, false),
        (r#""\\\012"@here.com"#, false),
        ("trailingdot@shouldfail.com.", false),
        // no line feed at the end of either part
        ("a@b.com\n", false),
        ("a\n@b.com", false),
        (r#""test@test"\n@example.com"#, false),
        ("a@[127.0.0.1]\n", false),
        // no underscore in the domain part
        ("John.Doe@exam_ple.com", false),
    ];

    for (input, expected) in tests {
        assert_eq!(
            validate_email(input),
            expected,
            "Email `{}` was not classified correctly",
            input
        );
    }
}

#[test]
fn test_validate_email_cow() {
    let test: Cow<'static, str> = "email@here.com".into();
    assert!(validate_email(test));
    let test: Cow<'static, str> = String::from("email@here.com").into();
    assert!(validate_email(test));
    let test: Cow<'static, str> = "a@[127.0.0.1]\n".into();
    assert!(!validate_email(test));
    let test: Cow<'static, str> = String::from("a@[127.0.0.1]\n").into();
    assert!(!validate_email(test));
}

#[test]
fn test_validate_email_rfc5321() {
    // 65 character local part
    let test = "aaaaaaaaaaaaaaaaaaaaaaaaaaaaaaaaaaaaaaaaaaaaaaaaaaaaaaaaaaaaaaaaa@mail.com";
    assert_eq!(validate_email(test), false);
    // 256 character domain part
    let test = "a@aaaaaaaaaaaaaaaaaaaaaaaaaaaaaaaaaaaaaaaaaaaaaaaaaaaaaaaaaaaaaaaaaaaaaaaaaaaaaaaaaaaaaaaaaaaaaaaaaaaaaaaaaaaaaaaaaaaaaaaaaaaaaaaaaaaaaaaaaaaaaaaaaaaaaaaaaaaaaaaaaaaaaaaaaaaaaaaaaaaaaaaaaaaaaaaaaaaaaaaaaaaaaaaaaaaaaaaaaaaaaaaaaaaaaaaaaaaaaaaaaaaaaaaaaaaaaaaa.com";
    assert_eq!(validate_email(test), false);
}

#[test]
fn every_kind_of_string_is_validated_alike() {
    let owned = String::from("email@here.com");
    assert!(validate_email("email@here.com"));
    assert!(validate_email(&owned));
    assert!(validate_email(owned.clone()));
    assert!(validate_email(Cow::Borrowed("email@here.com")));
    assert!(owned.validate_email());
    assert!("email@here.com".validate_email());

    let owned = String::from("email@here");
    assert_eq!(owned.to_email_string(), "email@here");
    assert_eq!("email@here".to_email_string(), "email@here");
    assert_eq!((&owned).to_email_string(), "email@here");
    let cow: Cow<'static, str> = Cow::Owned(String::from("email@here"));
    assert_eq!(cow.to_email_string(), "email@here");
}

#[test]
fn text_is_borrowed_where_it_can_be() {
    let owned = String::from("Email@Here.com ");
    assert!(matches!("Email@Here.com ".to_email_string(), Cow::Borrowed("Email@Here.com ")));
    assert!(matches!(owned.to_email_string(), Cow::Borrowed("Email@Here.com ")));
    assert!(matches!((&owned).to_email_string(), Cow::Borrowed("Email@Here.com ")));
    // the text is that of the string itself, not a copy of it
    assert_eq!(owned.to_email_string().as_ptr(), owned.as_ptr());
    assert_eq!(owned, "Email@Here.com ");
}

#[test]
fn copy_of_a_cow_keeps_its_variant() {
    let borrowed: Cow<'static, str> = Cow::Borrowed("email@here");
    assert!(matches!(borrowed.to_email_string(), Cow::Borrowed("email@here")));
    let owned: Cow<'static, str> = Cow::Owned(String::from("email@here"));
    match owned.to_email_string() {
        Cow::Owned(copy) => assert_eq!(copy, "email@here"),
        Cow::Borrowed(_) => panic!("an owned text gives an owned copy"),
    }
    assert!(matches!(owned, Cow::Owned(_)));
    assert_eq!(owned, "email@here");
    let empty: Cow<'static, str> = Cow::Owned(String::new());
    assert!(matches!(empty.to_email_string(), Cow::Owned(_)));
}

#[test]
fn text_without_at_is_rejected() {
    for input in ["", "abc", "example.com", "[127.0.0.1]", "a b", "उदाहरण", "a.b.c", "\n"] {
        assert!(!validate_email(input), "{:?}", input);
    }
}

#[test]
fn text_is_cut_at_the_last_at() {
    // local part `a@b`, domain part `c.com`
    assert!(!validate_email("a@b@c.com"));
    // the domain part alone is fine, and so is everything before the first `@`
    assert!(validate_email("a@c.com"));
    assert!(validate_email("b@c.com"));
    assert!(!validate_email("a@b.com@"));
    assert!(!validate_email("@a@b.com"));
    assert!(!validate_email("@"));
    assert!(!validate_email("@b.com"));
}

#[test]
fn local_part_of_64_characters_is_the_longest() {
    let test = "xxxxxxxxxxxxxxxxxxxxxxxxxxxxxxxxxxxxxxxxxxxxxxxxxxxxxxxxxxxxxxxx@mail.com";
    assert_eq!(validate_email(test), true);
    let test = "xxxxxxxxxxxxxxxxxxxxxxxxxxxxxxxxxxxxxxxxxxxxxxxxxxxxxxxxxxxxxxxxx@mail.com";
    assert_eq!(validate_email(test), false);
    // the same domain with a short local part
    assert_eq!(validate_email("x@mail.com"), true);
}

#[test]
fn domain_part_of_255_characters_is_the_longest() {
    let test = "a@aaaaaaaaaaaaaaaaaaaaaaaaaaaaaaaaaaaaaaaaaaaaaaaaaaaaaaaaaaaaaaa.bbbbbbbbbbbbbbbbbbbbbbbbbbbbbbbbbbbbbbbbbbbbbbbbbbbbbbbbbbbbbbb.ccccccccccccccccccccccccccccccccccccccccccccccccccccccccccccccc.ddddddddddddddddddddddddddddddddddddddddddddddddddddddddddddddd";
    assert_eq!(test.len(), 2 + 255);
    assert_eq!(validate_email(test), true);
    let test = "a@aaaaaaaaaaaaaaaaaaaaaaaaaaaaaaaaaaaaaaaaaaaaaaaaaaaaaaaaaaaaaaa.bbbbbbbbbbbbbbbbbbbbbbbbbbbbbbbbbbbbbbbbbbbbbbbbbbbbbbbbbbbbbbb.ccccccccccccccccccccccccccccccccccccccccccccccccccccccccccccccc.dddddddddddddddddddddddddddddddddddddddddddddddddddddddddddddd.e";
    assert_eq!(test.len(), 2 + 256);
    assert_eq!(validate_email(test), false);
}

#[test]
fn both_parts_at_their_limits() {
    let test = "xxxxxxxxxxxxxxxxxxxxxxxxxxxxxxxxxxxxxxxxxxxxxxxxxxxxxxxxxxxxxxxx@aaaaaaaaaaaaaaaaaaaaaaaaaaaaaaaaaaaaaaaaaaaaaaaaaaaaaaaaaaaaaaa.bbbbbbbbbbbbbbbbbbbbbbbbbbbbbbbbbbbbbbbbbbbbbbbbbbbbbbbbbbbbbbb.ccccccccccccccccccccccccccccccccccccccccccccccccccccccccccccccc.ddddddddddddddddddddddddddddddddddddddddddddddddddddddddddddddd";
    assert_eq!(validate_email(test), true);
    let test = "xxxxxxxxxxxxxxxxxxxxxxxxxxxxxxxxxxxxxxxxxxxxxxxxxxxxxxxxxxxxxxxxx@aaaaaaaaaaaaaaaaaaaaaaaaaaaaaaaaaaaaaaaaaaaaaaaaaaaaaaaaaaaaaaa.bbbbbbbbbbbbbbbbbbbbbbbbbbbbbbbbbbbbbbbbbbbbbbbbbbbbbbbbbbbbbbb.ccccccccccccccccccccccccccccccccccccccccccccccccccccccccccccccc.ddddddddddddddddddddddddddddddddddddddddddddddddddddddddddddddd";
    assert_eq!(validate_email(test), false);
    let test = "xxxxxxxxxxxxxxxxxxxxxxxxxxxxxxxxxxxxxxxxxxxxxxxxxxxxxxxxxxxxxxxx@aaaaaaaaaaaaaaaaaaaaaaaaaaaaaaaaaaaaaaaaaaaaaaaaaaaaaaaaaaaaaaa.bbbbbbbbbbbbbbbbbbbbbbbbbbbbbbbbbbbbbbbbbbbbbbbbbbbbbbbbbbbbbbb.ccccccccccccccccccccccccccccccccccccccccccccccccccccccccccccccc.dddddddddddddddddddddddddddddddddddddddddddddddddddddddddddddd.e";
    assert_eq!(validate_email(test), false);
}

#[test]
fn lengths_are_counted_in_characters() {
    // 150 characters in 290 bytes
    let test = "a@üüüüüüüüüüüüüüüüüüüü.üüüüüüüüüüüüüüüüüüüü.üüüüüüüüüüüüüüüüüüüü.üüüüüüüüüüüüüüüüüüüü.üüüüüüüüüüüüüüüüüüüü.üüüüüüüüüüüüüüüüüüüü.üüüüüüüüüüüüüüüüüüüü.com";
    assert_eq!(test.chars().count(), 2 + 150);
    assert!(test.len() > 2 + 255);
    assert_eq!(validate_email(test), true);
}

#[test]
fn length_is_that_of_the_domain_as_written() {
    // 251 characters; the ASCII form is longer than 255
    let test = "a@üüüüüüüüüüüüüüüüüüüü.üüüüüüüüüüüüüüüüüüüü.üüüüüüüüüüüüüüüüüüüü.üüüüüüüüüüüüüüüüüüüü.üüüüüüüüüüüüüüüüüüüü.üüüüüüüüüüüüüüüüüüüü.üüüüüüüüüüüüüüüüüüüü.üüüüüüüüüüüüüüüüüüüü.üüüüüüüüüüüüüüüüüüüü.üüüüüüüüüüüüüüüüüüüü.üüüüüüüüüüüüüüüüüüüü.üüüüüüüüüüüüüüüüüüüü";
    assert_eq!(test.chars().count(), 2 + 251);
    assert_eq!(validate_email(test), true);
}

#[test]
fn validating_twice_gives_the_same_verdict() {
    for input in [
        "email@here.com",
        "email@[127.0.0.1]",
        "test@domain.with.idn.tld.उदाहरण.परीक्षा",
        "abc",
        "a@b.com\n",
        "email@[127.0.0.256]",
    ] {
        let first = validate_email(input);
        let second = validate_email(input);
        assert_eq!(first, second, "{:?}", input);
        assert_eq!(first, validate_email(String::from(input)), "{:?}", input);
    }
}

#[test]
fn address_literals() {
    assert_eq!(validate_email("email@[127.0.0.1]"), true);
    assert_eq!(validate_email("email@[127.0.0.256]"), false);
    assert_eq!(validate_email("email@[2001:dB8::1]"), true);
    assert_eq!(validate_email("email@[2001:db8::12345]"), false);
    assert_eq!(validate_email("email@[::1]"), true);
    assert_eq!(validate_email("email@[::]"), true);
    assert_eq!(validate_email("email@[]"), false);
    assert_eq!(validate_email("email@[127.0.0.1"), false);
    assert_eq!(validate_email("email@127.0.0.1]"), false);
    assert_eq!(validate_email("email@[[127.0.0.1]]"), false);
    assert_eq!(validate_email("email@[127.0.0.1] "), false);
    assert_eq!(validate_email("email@ [127.0.0.1]"), false);
}

#[test]
fn address_literal_is_the_whole_domain_part() {
    assert_eq!(validate_email("email@x[127.0.0.1]"), false);
    assert_eq!(validate_email("email@x.com[127.0.0.1]"), false);
    assert_eq!(validate_email("email@\n[127.0.0.1]"), false);
    assert_eq!(validate_email("email@x\n[::1]"), false);
}

#[test]
fn internationalised_domain_is_converted() {
    assert_eq!(validate_email("test@domain.with.idn.tld.उदाहरण.परीक्षा"), true);
    assert_eq!(validate_email("test@bücher.example"), true);
    assert_eq!(validate_email("test@उदाहरण"), true);
    // the local part is never converted
    assert_eq!(validate_email("bücher@example.com"), false);
    // an ASCII form that is no host name
    assert_eq!(validate_email("test@bücher_.example"), false);
    assert_eq!(validate_email("test@bücher.example."), false);
    assert_eq!(validate_email("test@.bücher.example"), false);
}

#[test]
fn trailing_dot_is_rejected() {
    assert_eq!(validate_email("trailingdot@shouldfail.com."), false);
    assert_eq!(validate_email("trailingdot@shouldfail.com"), true);
    assert_eq!(validate_email("leadingdot@.shouldfail.com"), false);
    assert_eq!(validate_email("twodots@shouldfail..com"), false);
}

#[test]
fn single_label_domain_is_accepted() {
    assert_eq!(validate_email("abc@bar"), true);
    assert_eq!(validate_email("abc@b"), true);
    assert_eq!(validate_email("abc@7"), true);
}

#[test]
fn underscore_only_in_the_local_part() {
    assert_eq!(validate_email("John.Doe@exam_ple.com"), false);
    assert_eq!(validate_email("john_doe@example.com"), true);
    assert_eq!(validate_email("_@example.com"), true);
    assert_eq!(validate_email("john@_example.com"), false);
}

#[test]
fn line_feed_is_rejected() {
    assert_eq!(validate_email("a@b.com\n"), false);
    assert_eq!(validate_email("a\n@b.com"), false);
    assert_eq!(validate_email("\na@b.com"), false);
    assert_eq!(validate_email("a@\nb.com"), false);
    assert_eq!(validate_email("a@b\n.com"), false);
    assert_eq!(validate_email("a@b.com\r\n"), false);
    assert_eq!(validate_email("a@b.com\nc@d.com"), false);
}

#[test]
fn local_part_is_ascii_in_either_case() {
    assert_eq!(validate_email("ABCxyz019@example.com"), true);
    assert_eq!(validate_email(".!#$%&'*+/=?^_`{|}~-@example.com"), true);
    assert_eq!(validate_email("a b@example.com"), false);
    assert_eq!(validate_email("a\"b@example.com"), false);
    assert_eq!(validate_email("a\\b@example.com"), false);
    assert_eq!(validate_email("a(b)@example.com"), false);
    assert_eq!(validate_email("a,b@example.com"), false);
    assert_eq!(validate_email("a<b@example.com"), false);
    // letters outside ASCII, also those that fold to ASCII letters
    assert_eq!(validate_email("é@example.com"), false);
    assert_eq!(validate_email("\u{17f}@example.com"), false);
    assert_eq!(validate_email("\u{212a}@example.com"), false);
}

#[test]
fn conversion_never_makes_an_address_literal() {
    // fullwidth brackets, digits and dots
    assert_eq!(validate_email("email@［１２７．０．０．１］"), false);
    assert_eq!(validate_email("email@［127.0.0.1］"), false);
}

#[test]
fn domain_letters_outside_ascii_are_converted() {
    assert_eq!(validate_email("A@EXAMPLE.COM"), true);
    // the Kelvin sign has the ASCII form `k`
    assert_eq!(validate_email("a@\u{212a}.com"), true);
    assert_eq!(validate_email("a@é.com"), true);
}
