use gc_rs::command::Command;

#[test]
fn each_subcommand_name_has_its_command() {
    assert_eq!(Command::from_name(Some("setup")), Command::Setup);
    assert_eq!(Command::from_name(Some("logout")), Command::Logout);
    assert_eq!(Command::from_name(Some("calendars")), Command::Calendars);
    assert_eq!(Command::from_name(Some("meet")), Command::Meet);
}

#[test]
fn no_subcommand_asks_for_the_listing() {
    assert_eq!(Command::from_name(None), Command::List);
    assert_eq!(Command::from_name(Some("")), Command::List);
    assert_eq!(Command::from_name(Some("Meet")), Command::List);
    assert_eq!(Command::from_name(Some("meets")), Command::List);
}

#[test]
fn only_setup_works_without_the_service() {
    assert!(!Command::Setup.needs_service());
    assert!(Command::Logout.needs_service());
    assert!(Command::Calendars.needs_service());
    assert!(Command::Meet.needs_service());
    assert!(Command::List.needs_service());
}
