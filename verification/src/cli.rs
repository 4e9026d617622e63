//! The host tool's invocations and the commands that each of them sends.

use vstd::prelude::*;
use crate::commands::{is_upload, upload};
use crate::protocol::Command;

verus! {

/// Command-line arguments.
#[derive(Debug)]
pub struct Cli {
    /// Serial port (e.g., /dev/ttyACM0)
    pub port: String,
    pub command: Commands,
}

/// Available subcommands.
#[derive(Debug)]
pub enum Commands {
    /// Get bootloader status
    Status,
    /// Upload firmware to a bank
    Upload {
        /// Path of the firmware binary
        file: String,
        /// Target bank (0 = A, 1 = B)
        bank: u8,
        /// Firmware version number
        version: u32,
    },
    /// Set the active bank for the next boot (without uploading new firmware)
    SetBank {
        /// Target bank (0 = A, 1 = B)
        bank: u8,
    },
    /// Reset the boot record, which marks both banks as empty
    Wipe,
    /// Reboot the device
    Reboot,
}

/// Whether `cmds` is what the invocation `command` sends, `firmware` being
/// the content of the file that an upload names.
pub open spec fn is_exchange(cmds: Seq<Command>, command: Commands, firmware: Seq<u8>) -> bool {
    match command {
        Commands::Status => cmds == seq![Command::GetStatus],
        Commands::Upload { bank, version, .. } => is_upload(cmds, firmware, bank, version),
        Commands::SetBank { bank } => cmds == seq![Command::SetActiveBank { bank }],
        Commands::Wipe => cmds == seq![Command::WipeAll],
        Commands::Reboot => cmds == seq![Command::Reboot],
    }
}

/// The commands that the parsed invocation sends to the bootloader, in
/// order. `firmware` is the content of the file that an upload names; no
/// other invocation looks at it.
pub fn run(cli: &Cli, firmware: &[u8]) -> (cmds: Vec<Command>)
    requires
        cli.command is Upload ==> firmware@.len() <= u32::MAX,
    ensures
        is_exchange(cmds@, cli.command, firmware@),
{
    match &cli.command {
        Commands::Upload { bank, version, .. } => upload(firmware, *bank, *version),
        Commands::Status => single(Command::GetStatus),
        Commands::SetBank { bank } => single(Command::SetActiveBank { bank: *bank }),
        Commands::Wipe => single(Command::WipeAll),
        Commands::Reboot => single(Command::Reboot),
    }
}

fn single(cmd: Command) -> (cmds: Vec<Command>)
    ensures
        cmds@ == seq![cmd],
{
    let mut cmds: Vec<Command> = Vec::new();
    cmds.push(cmd);
    assert(cmds@ =~= seq![cmd]);
    cmds
}

} // verus!
