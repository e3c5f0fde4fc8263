use book_lending::models::request::{
    record, CreateBookRequest, CreateUserRequest, FieldError, LoginRequest, RegisterRequest, SetRoleRequest,
    UpdateBookRequest, UpdateEmailRequest, UpdatePasswordRequest, UpdateUserRequest, UpdateUsernameRequest,
};

fn error(field: &str, message: &str) -> FieldError {
    FieldError { field: String::from(field), message: String::from(message) }
}

fn bad_email() -> FieldError {
    error("email", "invalid email format")
}

fn bad_username() -> FieldError {
    error("username", "username must be 3-30 characters")
}

fn bad_password() -> FieldError {
    error("password", "password must be at least 8 characters")
}

#[test]
fn a_valid_registration_breaks_no_rule() {
    let request = RegisterRequest {
        email: String::from("ann@example.com"),
        username: String::from("ann"),
        password: String::from("12345678"),
    };
    assert_eq!(request.validate(), Vec::<FieldError>::new());
}

#[test]
fn a_registration_reports_every_broken_rule_in_field_order() {
    let request = RegisterRequest {
        email: String::from("not-an-email"),
        username: String::from("an"),
        password: String::from("1234567"),
    };
    assert_eq!(request.validate(), vec![bad_email(), bad_username(), bad_password()]);
    let request = RegisterRequest {
        email: String::from("ann@example.com"),
        username: String::from("ann"),
        password: String::from("short"),
    };
    assert_eq!(request.validate(), vec![bad_password()]);
}

#[test]
fn user_names_have_three_to_thirty_characters() {
    let named = |name: &str| UpdateUsernameRequest { username: String::from(name) }.validate();
    assert_eq!(named(""), vec![bad_username()]);
    assert_eq!(named("ab"), vec![bad_username()]);
    assert_eq!(named("abc"), vec![]);
    assert_eq!(named(&"x".repeat(30)), vec![]);
    assert_eq!(named(&"x".repeat(31)), vec![bad_username()]);
    assert_eq!(named(&"\u{e9}".repeat(30)), vec![]);
    assert_eq!(named("\u{e9}\u{e9}"), vec![bad_username()]);
}

#[test]
fn passwords_have_at_least_eight_characters() {
    let changed = |new: &str| {
        UpdatePasswordRequest { old_password: String::from("x"), new_password: String::from(new) }.validate()
    };
    assert_eq!(changed("1234567"), vec![error("new_password", "password must be at least 8 characters")]);
    assert_eq!(changed("12345678"), vec![]);
    assert_eq!(changed(&"p".repeat(500)), vec![]);
}

#[test]
fn email_addresses_are_judged_by_the_validator() {
    let with = |email: &str| UpdateEmailRequest { email: String::from(email) }.validate();
    assert_eq!(with("email@here.com"), vec![]);
    assert_eq!(with("abc@bar"), vec![]);
    assert_eq!(with(""), vec![bad_email()]);
    assert_eq!(with("abc"), vec![bad_email()]);
    assert_eq!(with("abc@"), vec![bad_email()]);
    assert_eq!(with("a @x.cz"), vec![bad_email()]);
    assert_eq!(with("something@@somewhere.com"), vec![bad_email()]);
}

#[test]
fn a_login_checks_the_email_only() {
    let request = LoginRequest { email: String::from("ann@example.com"), password: String::new() };
    assert_eq!(request.validate(), vec![]);
    let request = LoginRequest { email: String::from("ann"), password: String::from("12345678") };
    assert_eq!(request.validate(), vec![bad_email()]);
}

#[test]
fn creating_a_user_follows_the_registration_rules() {
    let request = CreateUserRequest {
        email: String::from("root@example.com"),
        username: String::from("r"),
        password: String::from("12345678"),
        is_admin: true,
    };
    assert_eq!(request.validate(), vec![bad_username()]);
}

#[test]
fn absent_fields_of_an_update_break_no_rule() {
    let nothing = UpdateUserRequest { email: None, username: None, password: None };
    assert_eq!(nothing.validate(), vec![]);
    let some = UpdateUserRequest {
        email: Some(String::from("nope")),
        username: None,
        password: Some(String::from("short")),
    };
    assert_eq!(some.validate(), vec![bad_email(), bad_password()]);
    let fine = UpdateUserRequest {
        email: Some(String::from("ann@example.com")),
        username: Some(String::from("ann")),
        password: Some(String::from("long enough")),
    };
    assert_eq!(fine.validate(), vec![]);
}

#[test]
fn books_need_a_title_and_an_author() {
    let request = CreateBookRequest { title: String::new(), author: String::new() };
    assert_eq!(
        request.validate(),
        vec![error("title", "title must not be empty"), error("author", "author must not be empty")]
    );
    let request = CreateBookRequest { title: String::from("Dune"), author: String::from("F") };
    assert_eq!(request.validate(), vec![]);
    let update = UpdateBookRequest { title: Some(String::new()), author: None, stock: Some(-3) };
    assert_eq!(update.validate(), vec![error("title", "title must not be empty")]);
    let update = UpdateBookRequest { title: None, author: Some(String::new()), stock: None };
    assert_eq!(update.validate(), vec![error("author", "author must not be empty")]);
}

#[test]
fn a_violation_is_recorded_only_when_the_rule_is_broken() {
    let mut errors = vec![error("a", "b")];
    record(true, "email", "invalid email format", &mut errors);
    assert_eq!(errors, vec![error("a", "b")]);
    record(false, "email", "invalid email format", &mut errors);
    assert_eq!(errors, vec![error("a", "b"), bad_email()]);
}

#[test]
fn a_role_request_carries_the_flag() {
    assert!(SetRoleRequest { is_admin: true }.is_admin);
    assert_eq!(SetRoleRequest { is_admin: false }, SetRoleRequest { is_admin: false });
}
