use book_lending::database::users::UserRepository;
use book_lending::errors::AppError;
use book_lending::models::user::{valid_loans, User};
use book_lending::oid::ObjectId;
use book_lending::rules::{check_new_loan, loan_removal_outcome, position_of};

fn id(last: u8) -> ObjectId {
    ObjectId::from_bytes([0, 0, 0, 0, 0, 0, 0, 0, 0, 0, 2, last])
}

fn user(last: u8, email: &str) -> User {
    User::new(id(last), String::from(email), format!("user{}", last), String::from("hash"), false)
}

fn two_accounts() -> UserRepository {
    let mut users = UserRepository::new();
    assert_eq!(users.create(&user(1, "ann@example.com")), Ok(()));
    assert_eq!(users.create(&user(2, "bob@example.com")), Ok(()));
    users
}

#[test]
fn a_new_account_holds_nothing() {
    let ann = user(1, "ann@example.com");
    assert_eq!(ann.id(), id(1));
    assert_eq!(ann.email(), "ann@example.com");
    assert_eq!(ann.username(), "user1");
    assert_eq!(ann.password_hash(), "hash");
    assert!(!ann.is_admin());
    assert_eq!(ann.token_version(), 0);
    assert!(ann.borrowed_books().is_empty());
}

#[test]
fn accounts_are_found_by_id_and_by_email() {
    let users = two_accounts();
    assert_eq!(users.len(), 2);
    assert_eq!(users.find_by_id(&id(2)), Ok(Some(user(2, "bob@example.com"))));
    assert_eq!(users.find_by_id(&id(3)), Ok(None));
    assert_eq!(users.find_by_email("ann@example.com"), Ok(Some(user(1, "ann@example.com"))));
    assert_eq!(users.find_by_email("ANN@example.com"), Ok(None));
    assert_eq!(users.find_all(), Ok(vec![user(1, "ann@example.com"), user(2, "bob@example.com")]));
}

#[test]
fn an_email_address_cannot_be_stored_twice() {
    let mut users = two_accounts();
    let clash = users.create(&user(3, "ann@example.com"));
    assert_eq!(clash, Err(AppError::Conflict(String::from("email already registered"))));
    assert_eq!(users.len(), 2);
    assert_eq!(users.find_by_email("ann@example.com").unwrap().unwrap().id(), id(1));
    let both = users.create(&user(1, "ann@example.com"));
    assert_eq!(both, Err(AppError::Conflict(String::from("email already registered"))));
}

#[test]
fn an_email_address_cannot_be_taken_from_another_account() {
    let mut users = two_accounts();
    let taken = users.update_email(&id(2), "ann@example.com");
    assert_eq!(taken, Err(AppError::Conflict(String::from("email already registered"))));
    assert_eq!(users.find_by_id(&id(2)).unwrap().unwrap().email(), "bob@example.com");
    assert_eq!(users.update_email(&id(2), "bob@example.com"), Ok(()));
    assert_eq!(users.update_email(&id(2), "robert@example.com"), Ok(()));
    assert_eq!(users.find_by_id(&id(2)).unwrap().unwrap().email(), "robert@example.com");
    assert_eq!(users.update_email(&id(9), "ann@example.com"), Ok(()));
    assert_eq!(users.len(), 2);
    assert_eq!(users.create(&user(3, "bob@example.com")), Ok(()));
}

#[test]
fn a_token_version_never_goes_back() {
    let mut users = two_accounts();
    assert_eq!(users.update_token_version(&id(1), 4), Ok(()));
    assert_eq!(users.update_token_version(&id(1), 4), Ok(()));
    let back = users.update_token_version(&id(1), 3);
    assert_eq!(back, Err(AppError::BadRequest(String::from("token version must not decrease"))));
    assert_eq!(users.find_by_id(&id(1)).unwrap().unwrap().token_version(), 4);
    let negative = users.update_token_version(&id(2), -1);
    assert_eq!(negative, Err(AppError::BadRequest(String::from("token version must not decrease"))));
    assert_eq!(users.find_by_id(&id(2)).unwrap().unwrap().token_version(), 0);
    assert_eq!(users.update_token_version(&id(9), -5), Ok(()));
    assert_eq!(users.len(), 2);
}

#[test]
fn an_identifier_cannot_be_stored_twice() {
    let mut users = two_accounts();
    let clash = users.create(&user(1, "other@example.com"));
    assert_eq!(clash, Err(AppError::Internal(String::from("a record with this id already exists"))));
    assert_eq!(users.len(), 2);
    assert_eq!(users.find_by_id(&id(1)).unwrap().unwrap().email(), "ann@example.com");
}

#[test]
fn fields_of_an_account_can_be_changed() {
    let mut users = two_accounts();
    assert_eq!(users.set_admin(&id(1), true), Ok(()));
    assert_eq!(users.update_email(&id(1), "ann@library.org"), Ok(()));
    assert_eq!(users.update_username(&id(1), "ann"), Ok(()));
    assert_eq!(users.update_password(&id(1), "hash-2"), Ok(()));
    assert_eq!(users.update_token_version(&id(1), 5), Ok(()));
    let ann = users.find_by_id(&id(1)).unwrap().unwrap();
    assert!(ann.is_admin());
    assert_eq!(ann.email(), "ann@library.org");
    assert_eq!(ann.username(), "ann");
    assert_eq!(ann.password_hash(), "hash-2");
    assert_eq!(ann.token_version(), 5);
    assert_eq!(users.find_by_id(&id(2)), Ok(Some(user(2, "bob@example.com"))));

    assert_eq!(users.set_admin(&id(9), true), Ok(()));
    assert_eq!(users.update_email(&id(9), "x@y.z"), Ok(()));
    assert_eq!(users.len(), 2);
}

#[test]
fn a_deleted_account_is_gone() {
    let mut users = two_accounts();
    assert_eq!(users.delete_by_id(&id(1)), Ok(()));
    assert_eq!(users.find_by_id(&id(1)), Ok(None));
    assert_eq!(users.find_all(), Ok(vec![user(2, "bob@example.com")]));
    assert_eq!(users.delete_by_id(&id(1)), Ok(()));
    assert_eq!(users.len(), 1);
}

#[test]
fn the_registry_adds_loans_in_order() {
    let mut users = two_accounts();
    assert_eq!(users.add_borrowed_book(&id(1), &id(50)), Ok(()));
    assert_eq!(users.add_borrowed_book(&id(1), &id(51)), Ok(()));
    assert_eq!(users.find_by_id(&id(1)).unwrap().unwrap().borrowed_books(), &vec![id(50), id(51)]);
    assert!(users.find_by_id(&id(2)).unwrap().unwrap().borrowed_books().is_empty());
}

#[test]
fn the_registry_refuses_duplicates_a_ninth_loan_and_unknown_accounts() {
    let mut users = two_accounts();
    for n in 0..8u8 {
        assert_eq!(users.add_borrowed_book(&id(1), &id(50 + n)), Ok(()));
    }
    assert_eq!(
        users.add_borrowed_book(&id(1), &id(58)),
        Err(AppError::BadRequest(String::from("borrow limit reached")))
    );
    assert_eq!(
        users.add_borrowed_book(&id(1), &id(50)),
        Err(AppError::BadRequest(String::from("already borrowed")))
    );
    assert_eq!(users.find_by_id(&id(1)).unwrap().unwrap().borrowed_books().len(), 8);
    assert_eq!(
        users.add_borrowed_book(&id(9), &id(50)),
        Err(AppError::NotFound(String::from("user not found")))
    );
    assert_eq!(users.add_borrowed_book(&id(2), &id(50)), Ok(()));
}

#[test]
fn the_registry_removes_a_loan_only_where_it_is_held() {
    let mut users = two_accounts();
    assert_eq!(users.add_borrowed_book(&id(1), &id(50)), Ok(()));
    assert_eq!(users.add_borrowed_book(&id(1), &id(51)), Ok(()));
    assert_eq!(users.add_borrowed_book(&id(1), &id(52)), Ok(()));
    assert_eq!(users.remove_borrowed_book(&id(1), &id(51)), Ok(()));
    assert_eq!(users.find_by_id(&id(1)).unwrap().unwrap().borrowed_books(), &vec![id(50), id(52)]);
    let missing = Err(AppError::BadRequest(String::from("book not borrowed by user")));
    assert_eq!(users.remove_borrowed_book(&id(1), &id(51)), missing);
    assert_eq!(users.remove_borrowed_book(&id(2), &id(50)), missing);
    assert_eq!(users.remove_borrowed_book(&id(9), &id(50)), missing);
    assert_eq!(users.find_by_id(&id(1)).unwrap().unwrap().borrowed_books(), &vec![id(50), id(52)]);
}

#[test]
fn the_loan_rules_on_plain_lists() {
    let held: Vec<ObjectId> = (0..7u8).map(id).collect();
    assert_eq!(check_new_loan(&held, &id(7)), Ok(()));
    assert_eq!(check_new_loan(&held, &id(3)), Err(AppError::BadRequest(String::from("already borrowed"))));
    let full: Vec<ObjectId> = (0..8u8).map(id).collect();
    assert_eq!(check_new_loan(&full, &id(8)), Err(AppError::BadRequest(String::from("borrow limit reached"))));
    assert_eq!(check_new_loan(&full, &id(0)), Err(AppError::BadRequest(String::from("already borrowed"))));
    let over: Vec<ObjectId> = (0..9u8).map(id).collect();
    assert_eq!(check_new_loan(&over, &id(20)), Err(AppError::BadRequest(String::from("borrow limit reached"))));
    assert_eq!(check_new_loan(&Vec::new(), &id(0)), Ok(()));

    assert_eq!(position_of(&held, &id(4)), Some(4));
    assert_eq!(position_of(&held, &id(40)), None);
    assert_eq!(position_of(&vec![id(1), id(2), id(1)], &id(1)), Some(0));

    assert_eq!(loan_removal_outcome(1), Ok(()));
    assert_eq!(loan_removal_outcome(0), Err(AppError::BadRequest(String::from("book not borrowed by user"))));
}

#[test]
fn an_account_is_assembled_only_from_a_valid_list_of_loans() {
    let parts = |loans: Vec<ObjectId>| {
        User::from_parts(id(1), String::from("a@b.c"), String::from("ann"), String::from("h"), true, 3, loans)
    };
    let ann = parts(vec![id(5), id(6)]).unwrap();
    assert_eq!(ann.borrowed_books(), &vec![id(5), id(6)]);
    assert_eq!(ann.token_version(), 3);
    assert!(ann.is_admin());
    assert_eq!(parts(vec![id(5), id(6), id(5)]), None);
    assert_eq!(parts((0..9u8).map(id).collect()), None);
    assert!(parts((0..8u8).map(id).collect()).is_some());
    assert!(parts(Vec::new()).is_some());
    let negative =
        User::from_parts(id(1), String::from("a@b.c"), String::from("ann"), String::from("h"), true, -1, Vec::new());
    assert_eq!(negative, None);

    assert!(valid_loans(&vec![id(1), id(2)]));
    assert!(!valid_loans(&vec![id(1), id(1)]));
    assert!(!valid_loans(&vec![id(1), id(2), id(3), id(1)]));
    assert!(!valid_loans(&(0..9u8).map(id).collect()));
}
