use remove_scope::err::Error;
use remove_scope::ident::Ident;
use remove_scope::parse::scope;
use remove_scope::statement::RemoveScopeStatement;

#[test]
fn parse_simple_statement() {
    let (rest, stmt) = scope("REMOVE SCOPE user").unwrap();
    assert_eq!(rest, "");
    assert_eq!(stmt.name.0, "user");
}

#[test]
fn parse_is_case_insensitive() {
    let (rest, stmt) = scope("remove scope user").unwrap();
    assert_eq!(rest, "");
    assert_eq!(stmt.name.0, "user");
    let (rest, stmt) = scope("ReMoVe ScOpE User").unwrap();
    assert_eq!(rest, "");
    assert_eq!(stmt.name.0, "User");
}

#[test]
fn parse_keeps_name_case() {
    let (_, stmt) = scope("remove scope MyScope").unwrap();
    assert_eq!(stmt.name.0, "MyScope");
}

#[test]
fn parse_leaves_the_remainder() {
    let (rest, stmt) = scope("REMOVE SCOPE user; more text").unwrap();
    assert_eq!(rest, "; more text");
    assert_eq!(stmt.name.0, "user");
}

#[test]
fn parse_allows_any_whitespace_run() {
    let (rest, stmt) = scope("REMOVE\t\n  SCOPE \t user").unwrap();
    assert_eq!(rest, "");
    assert_eq!(stmt.name.0, "user");
}

#[test]
fn parse_rejects_missing_remove() {
    assert_eq!(scope("SCOPE user").unwrap_err(), Error::Parse);
    assert_eq!(scope("DELETE SCOPE user").unwrap_err(), Error::Parse);
}

#[test]
fn parse_rejects_missing_scope() {
    assert_eq!(scope("REMOVE user").unwrap_err(), Error::Parse);
    assert_eq!(scope("REMOVE TABLE user").unwrap_err(), Error::Parse);
}

#[test]
fn parse_rejects_missing_whitespace() {
    assert_eq!(scope("REMOVESCOPE user").unwrap_err(), Error::Parse);
    assert_eq!(scope("REMOVE SCOPEuser").unwrap_err(), Error::Parse);
}

#[test]
fn parse_rejects_missing_identifier() {
    assert_eq!(scope("REMOVE SCOPE").unwrap_err(), Error::Parse);
    assert_eq!(scope("REMOVE SCOPE ").unwrap_err(), Error::Parse);
    assert_eq!(scope("REMOVE SCOPE !").unwrap_err(), Error::Parse);
}

#[test]
fn parse_rejects_empty_input() {
    assert_eq!(scope("").unwrap_err(), Error::Parse);
}

#[test]
fn render_gives_the_canonical_text() {
    let stmt = RemoveScopeStatement { name: Ident(String::from("user")) };
    assert_eq!(stmt.render(), "REMOVE SCOPE user");
}

#[test]
fn parse_of_render_gives_the_command_back() {
    for name in ["user", "USER_2", "_x", "a1_b2", "0start"] {
        let stmt = RemoveScopeStatement { name: Ident(String::from(name)) };
        let text = stmt.render();
        let (rest, parsed) = scope(&text).unwrap();
        assert_eq!(rest, "");
        assert_eq!(parsed, stmt);
    }
}

#[test]
fn ident_new_validates_the_grammar() {
    assert_eq!(Ident::new(String::from("user")).unwrap().0, "user");
    assert!(Ident::new(String::from("A_1")).is_some());
    assert!(Ident::new(String::new()).is_none());
    assert!(Ident::new(String::from("has space")).is_none());
    assert!(Ident::new(String::from("h\u{00e9}llo")).is_none());
}

#[test]
fn error_text_names_each_failure() {
    assert_eq!(Error::Authorization.text(), "Not enough permissions");
    assert_eq!(
        Error::Storage.text(),
        "There was a problem with the underlying datastore"
    );
    assert_eq!(Error::Parse.text(), "Failed to parse statement");
}
