//! The tray menu, as data: the entries the control plane shows, in
//! order, and which control command each one stands for.  Building the
//! toolkit's menu objects from these entries is the shell's job.

use vstd::prelude::*;
use crate::commands::ServerCommand;

verus! {

/// What a tray menu entry does when chosen.
#[derive(Clone, Copy, Debug, PartialEq, Eq, Structural)]
pub enum MenuAction {
    StartServer,
    StopServer,
    ShowStatus,
    ShowQr,
    Connect,
    DisconnectClients,
    Exit,
}

/// One entry of the tray menu.
#[derive(Debug)]
pub struct MenuEntry {
    pub action: MenuAction,
    pub label: String,
    pub enabled: bool,
}

/// The tray menu: seven entries in their fixed order.  Only the stop
/// entry starts disabled — there is nothing to stop yet.
pub fn create_tray_menu() -> (r: Vec<MenuEntry>)
    ensures
        r@.len() == 7,
        r@[0].action == MenuAction::StartServer && r@[0].label@ == "Start Server"@
            && r@[0].enabled,
        r@[1].action == MenuAction::StopServer && r@[1].label@ == "Stop Server"@
            && !r@[1].enabled,
        r@[2].action == MenuAction::ShowStatus && r@[2].label@ == "Status"@ && r@[2].enabled,
        r@[3].action == MenuAction::ShowQr && r@[3].label@ == "Show QR Code"@ && r@[3].enabled,
        r@[4].action == MenuAction::Connect && r@[4].label@ == "Connect"@ && r@[4].enabled,
        r@[5].action == MenuAction::DisconnectClients && r@[5].label@ == "Disconnect"@
            && r@[5].enabled,
        r@[6].action == MenuAction::Exit && r@[6].label@ == "Exit"@ && r@[6].enabled,
{
    let mut menu: Vec<MenuEntry> = Vec::new();
    menu.push(
        MenuEntry { action: MenuAction::StartServer, label: "Start Server".to_owned(), enabled: true },
    );
    menu.push(
        MenuEntry { action: MenuAction::StopServer, label: "Stop Server".to_owned(), enabled: false },
    );
    menu.push(MenuEntry { action: MenuAction::ShowStatus, label: "Status".to_owned(), enabled: true });
    menu.push(
        MenuEntry { action: MenuAction::ShowQr, label: "Show QR Code".to_owned(), enabled: true },
    );
    menu.push(MenuEntry { action: MenuAction::Connect, label: "Connect".to_owned(), enabled: true });
    menu.push(
        MenuEntry {
            action: MenuAction::DisconnectClients,
            label: "Disconnect".to_owned(),
            enabled: true,
        },
    );
    menu.push(MenuEntry { action: MenuAction::Exit, label: "Exit".to_owned(), enabled: true });
    menu
}

/// Which control command a menu entry sends to the server, if any: the
/// status, QR and connect entries act on the UI alone, and `Exit` stops
/// the server before the process leaves.
pub fn menu_command_for(action: MenuAction) -> (r: Option<ServerCommand>)
    ensures
        (match action {
            MenuAction::StartServer => r == Some(ServerCommand::Start),
            MenuAction::StopServer => r == Some(ServerCommand::Stop),
            MenuAction::DisconnectClients => r == Some(ServerCommand::DisconnectClients),
            MenuAction::Exit => r == Some(ServerCommand::Stop),
            _ => r is None,
        }),
{
    match action {
        MenuAction::StartServer => Some(ServerCommand::Start),
        MenuAction::StopServer => Some(ServerCommand::Stop),
        MenuAction::DisconnectClients => Some(ServerCommand::DisconnectClients),
        MenuAction::Exit => Some(ServerCommand::Stop),
        _ => None,
    }
}

} // verus!
