use mipsy::command::{find_command, Command};

#[test]
fn commands_are_found_by_name_and_alias() {
    assert_eq!(find_command("."), Some(Command::Dot));
    assert_eq!(find_command("labels"), Some(Command::Labels));
    assert_eq!(find_command("ls"), Some(Command::Labels));
    assert_eq!(find_command("las"), Some(Command::Labels));
    assert_eq!(find_command("lbls"), Some(Command::Labels));
    assert_eq!(find_command("Labels"), None);
    assert_eq!(find_command("label"), None);
    assert_eq!(find_command(".."), None);
    assert_eq!(find_command(""), None);
    for command in [Command::Dot, Command::Labels] {
        assert_eq!(find_command(command.name()), Some(command));
        for alias in command.aliases() {
            assert_eq!(find_command(alias), Some(command));
        }
    }
}

#[test]
fn what_the_commands_say_of_themselves() {
    assert_eq!(Command::Dot.name(), ".");
    assert_eq!(Command::Dot.aliases(), Vec::<&str>::new());
    assert_eq!(Command::Dot.required_args(), vec!["instruction"]);
    assert_eq!(Command::Dot.description(), "execute a MIPS instruction");
    assert_eq!(Command::Dot.long_description(), "Executes a MIPS instruction immediately");
    assert_eq!(Command::Labels.name(), "labels");
    assert_eq!(Command::Labels.aliases(), vec!["ls", "las", "lbls"]);
    assert_eq!(Command::Labels.required_args(), Vec::<&str>::new());
    assert_eq!(Command::Labels.description(), "prints the addresses of all labels");
    assert_eq!(
        Command::Labels.long_description(),
        "Prints the addresses of all labels in the currently loaded program."
    );
}

#[test]
fn how_many_arguments_the_commands_take() {
    assert!(!Command::Dot.accepts(0));
    assert!(Command::Dot.accepts(1));
    assert!(Command::Dot.accepts(4));
    assert!(Command::Dot.accepts(usize::MAX));
    assert!(Command::Labels.accepts(0));
    assert!(!Command::Labels.accepts(1));
}
