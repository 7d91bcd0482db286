use tyrus::to_pascal_case;
use tyrus::to_snake_case;

#[test]
fn test_to_snake_case_simple() {
    assert_eq!(to_snake_case("fetchData"), "fetch_data");
    assert_eq!(to_snake_case("getUserName"), "get_user_name");
    assert_eq!(to_snake_case("HTTPRequest"), "h_t_t_p_request");
}

#[test]
fn test_to_snake_case_already_snake() {
    assert_eq!(to_snake_case("already_snake"), "already_snake");
}

#[test]
fn test_to_snake_case_single_word() {
    assert_eq!(to_snake_case("simple"), "simple");
    assert_eq!(to_snake_case("Simple"), "simple");
}

#[test]
fn test_to_snake_case_empty() {
    assert_eq!(to_snake_case(""), "");
}

#[test]
fn util_test_to_snake_case_simple() {
    assert_eq!(to_snake_case("fetchData"), "fetch_data");
    assert_eq!(to_snake_case("getUserName"), "get_user_name");
    assert_eq!(to_snake_case("HTTPRequest"), "h_t_t_p_request");
}

#[test]
fn util_test_to_snake_case_already_snake() {
    assert_eq!(to_snake_case("already_snake"), "already_snake");
}

#[test]
fn util_test_to_snake_case_single_word() {
    assert_eq!(to_snake_case("simple"), "simple");
    assert_eq!(to_snake_case("Simple"), "simple");
}

#[test]
fn util_test_to_snake_case_empty() {
    assert_eq!(to_snake_case(""), "");
}

#[test]
fn func_test_to_snake_case_simple() {
    assert_eq!(to_snake_case("fetchData"), "fetch_data");
    assert_eq!(to_snake_case("getUserName"), "get_user_name");
    assert_eq!(to_snake_case("HTTPRequest"), "h_t_t_p_request");
}

#[test]
fn func_test_to_snake_case_already_snake() {
    assert_eq!(to_snake_case("already_snake"), "already_snake");
}

#[test]
fn func_test_to_snake_case_single_word() {
    assert_eq!(to_snake_case("simple"), "simple");
    assert_eq!(to_snake_case("Simple"), "simple");
}

#[test]
fn func_test_to_snake_case_empty() {
    assert_eq!(to_snake_case(""), "");
}

#[test]
fn test_to_pascal_case_words() {
    assert_eq!(to_pascal_case("open"), "Open");
    assert_eq!(to_pascal_case("in_progress"), "InProgress");
    assert_eq!(to_pascal_case("two-words"), "TwoWords");
}
