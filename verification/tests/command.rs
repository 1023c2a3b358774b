use neko::command::{parse_command, AdminCommand};
use neko::persona::{Cardinal, Sheet};
use neko::tooltip::Relative;

#[test]
fn test_command_needs_neko() {
    assert_eq!(parse_command("ls -l"), None);
    assert_eq!(parse_command(""), None);
    assert_eq!(parse_command("  "), None);
}

#[test]
fn test_command_lifecycle() {
    assert_eq!(
        parse_command("neko install https://github.com/Arukana/libnya.git"),
        Some(AdminCommand::Install(
            "https://github.com/Arukana/libnya.git".to_string()
        ))
    );
    assert_eq!(
        parse_command("neko uninstall arukana@libnya"),
        Some(AdminCommand::Uninstall("arukana@libnya".to_string()))
    );
    assert_eq!(
        parse_command("neko mount arukana@libnya"),
        Some(AdminCommand::Mount("arukana@libnya".to_string(), None))
    );
    assert_eq!(
        parse_command("neko mount arukana@libnya -2"),
        Some(AdminCommand::Mount("arukana@libnya".to_string(), Some(-2)))
    );
    assert_eq!(
        parse_command("neko mount arukana@libnya low"),
        Some(AdminCommand::Mount("arukana@libnya".to_string(), None))
    );
    assert_eq!(
        parse_command("neko unmount arukana@libnya"),
        Some(AdminCommand::Unmount("arukana@libnya".to_string()))
    );
    assert_eq!(
        parse_command("neko update arukana@libnya"),
        Some(AdminCommand::Update("arukana@libnya".to_string()))
    );
    assert_eq!(parse_command("neko debug"), Some(AdminCommand::Debug));
}

#[test]
fn test_command_persona() {
    assert_eq!(
        parse_command("neko persona 12 7"),
        Some(AdminCommand::PersonaCoordinates(12, 7))
    );
    assert_eq!(
        parse_command("neko persona -1 7"),
        Some(AdminCommand::Invalid)
    );
    assert_eq!(
        parse_command("neko persona 99999999 7"),
        Some(AdminCommand::Invalid)
    );
    assert_eq!(
        parse_command("neko persona LowerLeft"),
        Some(AdminCommand::PersonaCardinal(Cardinal::LowerLeft))
    );
    assert_eq!(
        parse_command("neko persona MiddleCentral"),
        Some(AdminCommand::PersonaCardinal(Cardinal::MiddleCentral))
    );
    assert_eq!(
        parse_command("neko persona Bust"),
        Some(AdminCommand::PersonaSheet(Sheet::Bust))
    );
    assert_eq!(
        parse_command("neko persona None"),
        Some(AdminCommand::PersonaSheet(Sheet::Empty))
    );
    assert_eq!(
        parse_command("neko persona Unknown"),
        Some(AdminCommand::Invalid)
    );
}

#[test]
fn test_command_tooltip() {
    assert_eq!(
        parse_command("neko tooltip Top"),
        Some(AdminCommand::TooltipCardinal(Relative::Top))
    );
    assert_eq!(
        parse_command("neko tooltip Left"),
        Some(AdminCommand::TooltipCardinal(Relative::Left))
    );
    assert_eq!(
        parse_command("neko tooltip meow"),
        Some(AdminCommand::TooltipMessage("meow".to_string()))
    );
}

#[test]
fn test_command_unknown_shape() {
    assert_eq!(parse_command("neko dance"), Some(AdminCommand::Invalid));
    assert_eq!(
        parse_command("neko install a b c"),
        Some(AdminCommand::Invalid)
    );
    assert_eq!(
        parse_command("  neko \t debug  "),
        Some(AdminCommand::Debug)
    );
}
