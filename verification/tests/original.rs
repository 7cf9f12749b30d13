use turm::dialog::validated_time_limit;
use turm::squeue_args::SqueueArgs;
use turm::ui_text::chunked_string;
use tui_input::Input;

#[test]
fn test_validated_time_limit() {
    assert_eq!(validated_time_limit(Input::new("".to_string()).value()), None);
    assert_eq!(validated_time_limit(Input::new("   ".to_string()).value()), None);
    assert_eq!(
        validated_time_limit(Input::new(" 01:00:00 ".to_string()).value()),
        Some("01:00:00".to_string())
    );
}

#[test]
fn to_vec_formats_value_and_bool_flags_in_declaration_order() {
    let args = SqueueArgs {
        account: Some("myaccount".to_string()),
        all: false,
        federation: false,
        hide: false,
        job: Some("123,456".to_string()),
        local: false,
        licenses: None,
        clusters: None,
        me: true,
        name: None,
        noconvert: false,
        partition: None,
        qos: None,
        reservation: None,
        sibling: true,
        step: None,
        sort: None,
        states: None,
        user: None,
        nodelist: None,
    };

    assert_eq!(
        args.to_vec(),
        vec![
            "--account=myaccount".to_string(),
            "--job=123,456".to_string(),
            "--me".to_string(),
            "--sibling".to_string(),
        ]
    );
}

#[test]
fn test_chunked_string() {
    // Divisible
    let input = "abcdefghij";
    let expected = vec!["abcd", "ef", "gh", "ij"];
    assert_eq!(chunked_string(input, 4, 2), expected);

    // Not divisible
    let input = "123456789";
    let expected = vec!["1234", "56", "78", "9"];
    assert_eq!(chunked_string(input, 4, 2), expected);

    // Smaller
    let input = "abc";
    let expected = vec!["abc"];
    assert_eq!(chunked_string(input, 4, 2), expected);

    // Smaller
    let input = "abcde";
    let expected = vec!["abcd", "e"];
    assert_eq!(chunked_string(input, 4, 2), expected);

    // Empty
    let input = "";
    let expected: Vec<&str> = vec![""];
    assert_eq!(chunked_string(input, 4, 2), expected);

    let input = "123456789";
    let expected = vec!["1234", "56789"];
    assert_eq!(chunked_string(input, 4, 0), expected);

    let input = "123456789";
    let expected = vec!["12", "34", "56", "78", "9"];
    assert_eq!(chunked_string(input, 0, 2), expected);

    let input = "123456789";
    let expected = vec!["123456789"];
    assert_eq!(chunked_string(input, 0, 0), expected);
}
