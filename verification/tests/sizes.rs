use randomart::size::is_valid_size;

#[test]
fn odd_sizes_are_accepted() {
    assert_eq!(is_valid_size("1"), Ok(()));
    assert_eq!(is_valid_size("9"), Ok(()));
    assert_eq!(is_valid_size("17"), Ok(()));
    assert_eq!(is_valid_size("+3"), Ok(()));
    assert_eq!(is_valid_size("007"), Ok(()));
    assert_eq!(is_valid_size("1001"), Ok(()));
}

#[test]
fn even_sizes_are_refused_with_their_value() {
    assert_eq!(is_valid_size("8"), Err(String::from("Size needs to be odd! 8 is not valid.")));
    assert_eq!(is_valid_size("0"), Err(String::from("Size needs to be odd! 0 is not valid.")));
    assert_eq!(is_valid_size("10"), Err(String::from("Size needs to be odd! 10 is not valid.")));
    assert_eq!(is_valid_size("+0042"), Err(String::from("Size needs to be odd! 42 is not valid.")));
    assert_eq!(
        is_valid_size("1234567890"),
        Err(String::from("Size needs to be odd! 1234567890 is not valid."))
    );
}

#[test]
fn the_largest_sizes() {
    assert_eq!(is_valid_size(&usize::MAX.to_string()), Ok(()));
    let even = usize::MAX - 1;
    assert_eq!(
        is_valid_size(&even.to_string()),
        Err(format!("Size needs to be odd! {} is not valid.", even))
    );
}

#[test]
fn text_that_is_no_size_is_refused_with_a_reason() {
    let complaint = |reason: &str| {
        Err(format!("Size needs to be valid positive integer! {} is not valid.", reason))
    };
    assert_eq!(is_valid_size(""), complaint("cannot parse integer from empty string"));
    assert_eq!(is_valid_size("abc"), complaint("invalid digit found in string"));
    assert_eq!(is_valid_size("-3"), complaint("invalid digit found in string"));
    assert_eq!(is_valid_size("+"), complaint("invalid digit found in string"));
    assert_eq!(is_valid_size(" 3"), complaint("invalid digit found in string"));
    assert_eq!(is_valid_size("3 "), complaint("invalid digit found in string"));
    assert_eq!(is_valid_size("1_000"), complaint("invalid digit found in string"));
    assert_eq!(is_valid_size("3.0"), complaint("invalid digit found in string"));
    assert_eq!(is_valid_size("++3"), complaint("invalid digit found in string"));
    assert_eq!(is_valid_size("٣"), complaint("invalid digit found in string"));
    assert_eq!(
        is_valid_size("340282366920938463463374607431768211457"),
        complaint("number too large to fit in target type")
    );
}

#[test]
fn one_more_than_the_largest_size_is_refused() {
    let too_large = (usize::MAX as u128 + 1).to_string();
    assert_eq!(
        is_valid_size(&too_large),
        Err(String::from(
            "Size needs to be valid positive integer! number too large to fit in target type is not valid."
        ))
    );
}
