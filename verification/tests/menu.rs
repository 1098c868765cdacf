use remote_input_server::commands::ServerCommand;
use remote_input_server::qr::display_qr_code;
use remote_input_server::tray::{create_tray_menu, menu_command_for, MenuAction};

#[test]
fn qr_payload_is_the_address_as_a_url() {
    assert_eq!(display_qr_code("127.0.0.1:8080"), "http://127.0.0.1:8080");
    assert_eq!(display_qr_code(""), "http://");
}

#[test]
fn menu_has_the_seven_entries_in_order() {
    let menu = create_tray_menu();
    let labels: Vec<&str> = menu.iter().map(|e| e.label.as_str()).collect();
    assert_eq!(
        labels,
        vec!["Start Server", "Stop Server", "Status", "Show QR Code", "Connect", "Disconnect", "Exit"]
    );
    // Only the stop entry starts disabled.
    for (k, entry) in menu.iter().enumerate() {
        assert_eq!(entry.enabled, k != 1);
    }
    assert_eq!(menu[0].action, MenuAction::StartServer);
    assert_eq!(menu[6].action, MenuAction::Exit);
}

#[test]
fn menu_entries_map_to_commands() {
    assert_eq!(menu_command_for(MenuAction::StartServer), Some(ServerCommand::Start));
    assert_eq!(menu_command_for(MenuAction::StopServer), Some(ServerCommand::Stop));
    assert_eq!(
        menu_command_for(MenuAction::DisconnectClients),
        Some(ServerCommand::DisconnectClients)
    );
    assert_eq!(menu_command_for(MenuAction::Exit), Some(ServerCommand::Stop));
    assert_eq!(menu_command_for(MenuAction::ShowStatus), None);
    assert_eq!(menu_command_for(MenuAction::ShowQr), None);
    assert_eq!(menu_command_for(MenuAction::Connect), None);
}
