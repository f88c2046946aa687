//! The command-line commands and the decisions each handler makes: which
//! operation runs, with which arguments, or which error is reported.  The
//! operations themselves (processes, files, network) are carried out by the
//! caller.
use vstd::prelude::*;
use crate::config::HostField;
use crate::settings::ReleaseChannel;
use crate::portainer::{edition_named, InvalidEdition, PortainerEdition};
use crate::text::{lowercase, str_eq, to_lowercase};

verus! {

/// Subcommands of `config create`.
#[derive(PartialEq, Eq, Debug)]
pub enum CreateConfigCommands {
    App,
    Smb { server_name: Option<String> },
    Ssh { hostname: Option<String> },
}

/// Subcommands of `db migrate`.
#[derive(PartialEq, Eq, Debug)]
pub enum MigrateCommands {
    Up,
    Down,
    List,
    Generate { description: Vec<String> },
    GenerateShort { description: Vec<String> },
}

/// Subcommands of `db`.
#[derive(PartialEq, Eq, Debug)]
pub enum DbCommands {
    Generate,
    Backup { path: Option<String> },
    Migrate { command: Option<MigrateCommands> },
    Sync,
    Restore,
}

/// Subcommands of `config`, of both word lists: the older one has `Show` and
/// `BackupToEnv`, the newer one `List` and `Backup`; globally both show the
/// configuration and both write the database's hosts to `.env`.
#[derive(PartialEq, Eq, Debug)]
#[allow(inconsistent_fields)]
pub enum ConfigCommands {
    List,
    Show,
    Init,
    SetEnv { path: String },
    SetStable,
    SetExperimental,
    Create { command: CreateConfigCommands },
    Env,
    Db { command: DbCommands },
    SetBackup { hostname: Option<String> },
    Backup,
    BackupToEnv,
    Commit,
    Delete { from_env: bool },
    Diff,
    Ip { value: String },
    Hostname { value: String },
    Tailscale { value: String },
    BackupPath { value: String },
}

/// What `config <host> ...` does to that host.
#[derive(PartialEq, Eq, Debug)]
pub enum HostConfigAction {
    Show,
    CommitToDb,
    BackupToEnv,
    Delete { from_env: bool },
    SetField { field: HostField, value: String },
    SetBackupLocation,
}

/// What a `config` command without a host does.
#[derive(PartialEq, Eq, Debug)]
#[allow(inconsistent_fields)]
pub enum GlobalConfigAction {
    ShowDb { verbose: bool },
    ShowCurrent { verbose: bool },
    CommitAllToDb,
    BackupAllToEnv,
    Init,
    SetEnv { path: String },
    SetChannel { channel: ReleaseChannel },
    Create { command: CreateConfigCommands },
    CreateExampleEnv,
    Db { command: DbCommands },
    SetBackupLocation { hostname: Option<String> },
    Diff,
}

/// The operation a `config` command selects.
#[derive(PartialEq, Eq, Debug)]
pub enum ConfigPlan {
    /// The argument names a host; the action applies to it.
    ForHost(HostConfigAction),
    Global(GlobalConfigAction),
}

/// Why a `config` command was refused.
#[derive(PartialEq, Eq, Structural, Debug)]
pub enum ConfigError {
    /// `diff` compares every host and takes none.
    DiffIsGlobal,
    /// The subcommand does not apply to a single host.
    NotForHost,
    /// `delete` needs a host.
    DeleteNeedsHost,
    /// Setting a field needs a host.
    FieldNeedsHost,
    /// The subcommand needs a host.
    NeedsHost,
}

/// Whether a lower-cased argument is a word of the `config` command rather
/// than a host name.  `legacy` selects the older word list (with `show` and
/// `backup-to-env`) over the newer one (with `list`).
pub open spec fn is_config_word(legacy: bool, w: Seq<char>) -> bool {
    ||| w == "init"@
    ||| w == "set-env"@
    ||| w == "stable"@
    ||| w == "experimental"@
    ||| w == "create"@
    ||| w == "env"@
    ||| w == "db"@
    ||| w == "backup"@
    ||| w == "commit"@
    ||| w == "delete"@
    ||| w == "diff"@
    ||| (legacy && (w == "show"@ || w == "backup-to-env"@))
    ||| (!legacy && w == "list"@)
}

/// The action on a named host.  The older word list shows a host with
/// `show` and writes it back with `backup-to-env`; the newer one uses
/// `list` and `backup`.  The other version's words are refused.
pub open spec fn host_config_action(legacy: bool, command: Option<ConfigCommands>) -> Result<HostConfigAction, ConfigError> {
    match command {
        None => Ok(HostConfigAction::Show),
        Some(c) => match c {
            ConfigCommands::Show => if legacy { Ok(HostConfigAction::Show) } else { Err(ConfigError::NotForHost) },
            ConfigCommands::List => if legacy { Err(ConfigError::NotForHost) } else { Ok(HostConfigAction::Show) },
            ConfigCommands::Commit => Ok(HostConfigAction::CommitToDb),
            ConfigCommands::BackupToEnv => if legacy {
                Ok(HostConfigAction::BackupToEnv)
            } else {
                Err(ConfigError::NotForHost)
            },
            ConfigCommands::Backup => if legacy {
                Err(ConfigError::NotForHost)
            } else {
                Ok(HostConfigAction::BackupToEnv)
            },
            ConfigCommands::Delete { from_env } => Ok(HostConfigAction::Delete { from_env }),
            ConfigCommands::Ip { value } => Ok(HostConfigAction::SetField { field: HostField::Ip, value }),
            ConfigCommands::Hostname { value } => Ok(
                HostConfigAction::SetField { field: HostField::Hostname, value },
            ),
            ConfigCommands::Tailscale { value } => Ok(
                HostConfigAction::SetField { field: HostField::Tailscale, value },
            ),
            ConfigCommands::BackupPath { value } => Ok(
                HostConfigAction::SetField { field: HostField::BackupPath, value },
            ),
            ConfigCommands::SetBackup { .. } => Ok(HostConfigAction::SetBackupLocation),
            ConfigCommands::Diff => Err(ConfigError::DiffIsGlobal),
            _ => Err(ConfigError::NotForHost),
        },
    }
}

/// The command a global `config` invocation runs: a recognised word selects
/// its command, anything else the given subcommand, by default the listing.
pub open spec fn effective_config_command(
    legacy: bool,
    lowered: Option<Seq<char>>,
    command: Option<ConfigCommands>,
) -> ConfigCommands {
    let default = match command {
        Some(c) => c,
        None => if legacy { ConfigCommands::Show } else { ConfigCommands::List },
    };
    match lowered {
        None => default,
        Some(w) => if legacy && w == "show"@ {
            ConfigCommands::Show
        } else if !legacy && w == "list"@ {
            ConfigCommands::List
        } else if w == "init"@ {
            ConfigCommands::Init
        } else if w == "env"@ {
            ConfigCommands::Env
        } else if w == "stable"@ {
            ConfigCommands::SetStable
        } else if w == "experimental"@ {
            ConfigCommands::SetExperimental
        } else if w == "commit"@ {
            ConfigCommands::Commit
        } else if w == "backup"@ {
            if legacy { ConfigCommands::BackupToEnv } else { ConfigCommands::Backup }
        } else if w == "diff"@ {
            ConfigCommands::Diff
        } else {
            default
        },
    }
}

/// The global action of a command.
pub open spec fn global_config_action(legacy: bool, cmd: ConfigCommands, verbose: bool, db: bool) -> Result<GlobalConfigAction, ConfigError> {
    match cmd {
        ConfigCommands::Show | ConfigCommands::List => if db {
            Ok(GlobalConfigAction::ShowDb { verbose })
        } else {
            Ok(GlobalConfigAction::ShowCurrent { verbose })
        },
        ConfigCommands::Commit => Ok(GlobalConfigAction::CommitAllToDb),
        ConfigCommands::BackupToEnv | ConfigCommands::Backup => Ok(GlobalConfigAction::BackupAllToEnv),
        ConfigCommands::Init => Ok(GlobalConfigAction::Init),
        ConfigCommands::SetEnv { path } => Ok(GlobalConfigAction::SetEnv { path }),
        ConfigCommands::SetStable => Ok(GlobalConfigAction::SetChannel { channel: ReleaseChannel::Stable }),
        ConfigCommands::SetExperimental => Ok(
            GlobalConfigAction::SetChannel { channel: ReleaseChannel::Experimental },
        ),
        ConfigCommands::Create { command } => Ok(GlobalConfigAction::Create { command }),
        ConfigCommands::Env => Ok(GlobalConfigAction::CreateExampleEnv),
        ConfigCommands::Db { command } => Ok(GlobalConfigAction::Db { command }),
        ConfigCommands::SetBackup { hostname } => Ok(GlobalConfigAction::SetBackupLocation { hostname }),
        ConfigCommands::Delete { .. } => Err(ConfigError::DeleteNeedsHost),
        ConfigCommands::Diff => Ok(GlobalConfigAction::Diff),
        ConfigCommands::Ip { .. }
        | ConfigCommands::Hostname { .. }
        | ConfigCommands::Tailscale { .. }
        | ConfigCommands::BackupPath { .. } => if legacy {
            Err(ConfigError::FieldNeedsHost)
        } else {
            Err(ConfigError::NeedsHost)
        },
    }
}

/// The plan of a `config` invocation, given its argument lower-cased.
pub open spec fn config_plan(
    legacy: bool,
    lowered: Option<Seq<char>>,
    verbose: bool,
    db: bool,
    command: Option<ConfigCommands>,
) -> Result<ConfigPlan, ConfigError> {
    if lowered matches Some(w) && !is_config_word(legacy, w) {
        match host_config_action(legacy, command) {
            Ok(a) => Ok(ConfigPlan::ForHost(a)),
            Err(e) => Err(e),
        }
    } else {
        match global_config_action(legacy, effective_config_command(legacy, lowered, command), verbose, db) {
            Ok(a) => Ok(ConfigPlan::Global(a)),
            Err(e) => Err(e),
        }
    }
}

/// The lower-cased argument, when there is one.
pub open spec fn lowered_arg(arg: Option<&str>) -> Option<Seq<char>> {
    match arg {
        Some(a) => Some(lowercase(a@)),
        None => None,
    }
}

fn is_config_word_exec(legacy: bool, w: &str) -> (r: bool)
    ensures
        r == is_config_word(legacy, w@),
{
    str_eq(w, "init") || str_eq(w, "set-env") || str_eq(w, "stable") || str_eq(w, "experimental")
        || str_eq(w, "create") || str_eq(w, "env") || str_eq(w, "db") || str_eq(w, "backup")
        || str_eq(w, "commit") || str_eq(w, "delete") || str_eq(w, "diff")
        || (legacy && (str_eq(w, "show") || str_eq(w, "backup-to-env")))
        || (!legacy && str_eq(w, "list"))
}

fn host_action_exec(legacy: bool, command: Option<ConfigCommands>) -> (r: Result<HostConfigAction, ConfigError>)
    ensures
        r == host_config_action(legacy, command),
{
    match command {
        None => Ok(HostConfigAction::Show),
        Some(c) => match c {
            ConfigCommands::Show => if legacy { Ok(HostConfigAction::Show) } else { Err(ConfigError::NotForHost) },
            ConfigCommands::List => if legacy { Err(ConfigError::NotForHost) } else { Ok(HostConfigAction::Show) },
            ConfigCommands::Commit => Ok(HostConfigAction::CommitToDb),
            ConfigCommands::BackupToEnv => if legacy {
                Ok(HostConfigAction::BackupToEnv)
            } else {
                Err(ConfigError::NotForHost)
            },
            ConfigCommands::Backup => if legacy {
                Err(ConfigError::NotForHost)
            } else {
                Ok(HostConfigAction::BackupToEnv)
            },
            ConfigCommands::Delete { from_env } => Ok(HostConfigAction::Delete { from_env }),
            ConfigCommands::Ip { value } => Ok(HostConfigAction::SetField { field: HostField::Ip, value }),
            ConfigCommands::Hostname { value } => Ok(
                HostConfigAction::SetField { field: HostField::Hostname, value },
            ),
            ConfigCommands::Tailscale { value } => Ok(
                HostConfigAction::SetField { field: HostField::Tailscale, value },
            ),
            ConfigCommands::BackupPath { value } => Ok(
                HostConfigAction::SetField { field: HostField::BackupPath, value },
            ),
            ConfigCommands::SetBackup { .. } => Ok(HostConfigAction::SetBackupLocation),
            ConfigCommands::Diff => Err(ConfigError::DiffIsGlobal),
            _ => Err(ConfigError::NotForHost),
        },
    }
}

fn effective_command_exec(legacy: bool, lowered: Option<&str>, command: Option<ConfigCommands>) -> (r: ConfigCommands)
    ensures
        r == effective_config_command(
            legacy,
            match lowered {
                Some(w) => Some(w@),
                None => None,
            },
            command,
        ),
{
    let default = match command {
        Some(c) => c,
        None => if legacy { ConfigCommands::Show } else { ConfigCommands::List },
    };
    match lowered {
        None => default,
        Some(w) => if legacy && str_eq(w, "show") {
            ConfigCommands::Show
        } else if !legacy && str_eq(w, "list") {
            ConfigCommands::List
        } else if str_eq(w, "init") {
            ConfigCommands::Init
        } else if str_eq(w, "env") {
            ConfigCommands::Env
        } else if str_eq(w, "stable") {
            ConfigCommands::SetStable
        } else if str_eq(w, "experimental") {
            ConfigCommands::SetExperimental
        } else if str_eq(w, "commit") {
            ConfigCommands::Commit
        } else if str_eq(w, "backup") {
            if legacy { ConfigCommands::BackupToEnv } else { ConfigCommands::Backup }
        } else if str_eq(w, "diff") {
            ConfigCommands::Diff
        } else {
            default
        },
    }
}

fn global_action_exec(legacy: bool, cmd: ConfigCommands, verbose: bool, db: bool) -> (r: Result<GlobalConfigAction, ConfigError>)
    ensures
        r == global_config_action(legacy, cmd, verbose, db),
{
    match cmd {
        ConfigCommands::Show | ConfigCommands::List => if db {
            Ok(GlobalConfigAction::ShowDb { verbose })
        } else {
            Ok(GlobalConfigAction::ShowCurrent { verbose })
        },
        ConfigCommands::Commit => Ok(GlobalConfigAction::CommitAllToDb),
        ConfigCommands::BackupToEnv | ConfigCommands::Backup => Ok(GlobalConfigAction::BackupAllToEnv),
        ConfigCommands::Init => Ok(GlobalConfigAction::Init),
        ConfigCommands::SetEnv { path } => Ok(GlobalConfigAction::SetEnv { path }),
        ConfigCommands::SetStable => Ok(GlobalConfigAction::SetChannel { channel: ReleaseChannel::Stable }),
        ConfigCommands::SetExperimental => Ok(
            GlobalConfigAction::SetChannel { channel: ReleaseChannel::Experimental },
        ),
        ConfigCommands::Create { command } => Ok(GlobalConfigAction::Create { command }),
        ConfigCommands::Env => Ok(GlobalConfigAction::CreateExampleEnv),
        ConfigCommands::Db { command } => Ok(GlobalConfigAction::Db { command }),
        ConfigCommands::SetBackup { hostname } => Ok(GlobalConfigAction::SetBackupLocation { hostname }),
        ConfigCommands::Delete { .. } => Err(ConfigError::DeleteNeedsHost),
        ConfigCommands::Diff => Ok(GlobalConfigAction::Diff),
        ConfigCommands::Ip { .. }
        | ConfigCommands::Hostname { .. }
        | ConfigCommands::Tailscale { .. }
        | ConfigCommands::BackupPath { .. } => if legacy {
            Err(ConfigError::FieldNeedsHost)
        } else {
            Err(ConfigError::NeedsHost)
        },
    }
}

/// The plan of a `config` invocation whose argument has already been
/// lower-cased (`lowered`).
pub fn plan_config(
    legacy: bool,
    lowered: Option<&str>,
    verbose: bool,
    db: bool,
    command: Option<ConfigCommands>,
) -> (r: Result<ConfigPlan, ConfigError>)
    ensures
        r == config_plan(
            legacy,
            match lowered {
                Some(w) => Some(w@),
                None => None,
            },
            verbose,
            db,
            command,
        ),
{
    let host_arg = match lowered {
        Some(w) => !is_config_word_exec(legacy, w),
        None => false,
    };
    if host_arg {
        match host_action_exec(legacy, command) {
            Ok(a) => Ok(ConfigPlan::ForHost(a)),
            Err(e) => Err(e),
        }
    } else {
        let cmd = effective_command_exec(legacy, lowered, command);
        match global_action_exec(legacy, cmd, verbose, db) {
            Ok(a) => Ok(ConfigPlan::Global(a)),
            Err(e) => Err(e),
        }
    }
}

fn lower_arg(arg: Option<&str>) -> (r: Option<String>)
    ensures
        match r {
            Some(s) => lowered_arg(arg) == Some(s@),
            None => arg is None,
        },
{
    match arg {
        Some(a) => Some(to_lowercase(a)),
        None => None,
    }
}

/// `config [ARG] [SUBCOMMAND]` as the command module handles it: an argument
/// that is not one of its words (`show`, `init`, `set-env`, `stable`,
/// `experimental`, `create`, `env`, `db`, `backup`, `commit`,
/// `backup-to-env`, `delete`, `diff`, in any case) names a host.
pub fn handle_config(arg: Option<&str>, verbose: bool, db: bool, command: Option<ConfigCommands>) -> (r: Result<ConfigPlan, ConfigError>)
    ensures
        r == config_plan(true, lowered_arg(arg), verbose, db, command),
{
    let l = lower_arg(arg);
    let lowered = match &l {
        Some(s) => Some(s.as_str()),
        None => None,
    };
    plan_config(true, lowered, verbose, db, command)
}

/// `config [ARG] [SUBCOMMAND]` as the configuration service handles it: an
/// argument that is not one of its words (`list`, `init`, `set-env`,
/// `stable`, `experimental`, `create`, `env`, `db`, `backup`, `commit`,
/// `delete`, `diff`, in any case) names a host.
pub fn handle_config_command(arg: Option<&str>, verbose: bool, db: bool, command: Option<ConfigCommands>) -> (r: Result<ConfigPlan, ConfigError>)
    ensures
        r == config_plan(false, lowered_arg(arg), verbose, db, command),
{
    let l = lower_arg(arg);
    let lowered = match &l {
        Some(s) => Some(s.as_str()),
        None => None,
    };
    plan_config(false, lowered, verbose, db, command)
}


/// Subcommands of `agent`.
#[derive(PartialEq, Eq, Debug)]
pub enum AgentCommands {
    Start { port: u16, daemon: bool },
    Stop,
    Status,
    Discover { verbose: bool },
    Sync { force: bool },
    Logs { follow: bool },
}

/// What an `agent` subcommand runs.
#[derive(PartialEq, Eq, Debug)]
pub enum AgentAction {
    StartAgent { port: u16, daemon: bool },
    StopAgent,
    ShowStatus,
    DiscoverAgents { verbose: bool },
    SyncWithAgents { force: bool },
    ShowLogs { follow: bool },
}

/// Routes an `agent` subcommand to its operation.
pub fn handle_agent(command: AgentCommands) -> (r: AgentAction)
    ensures
        r == (match command {
            AgentCommands::Start { port, daemon } => AgentAction::StartAgent { port, daemon },
            AgentCommands::Stop => AgentAction::StopAgent,
            AgentCommands::Status => AgentAction::ShowStatus,
            AgentCommands::Discover { verbose } => AgentAction::DiscoverAgents { verbose },
            AgentCommands::Sync { force } => AgentAction::SyncWithAgents { force },
            AgentCommands::Logs { follow } => AgentAction::ShowLogs { follow },
        }),
{
    match command {
        AgentCommands::Start { port, daemon } => AgentAction::StartAgent { port, daemon },
        AgentCommands::Stop => AgentAction::StopAgent,
        AgentCommands::Status => AgentAction::ShowStatus,
        AgentCommands::Discover { verbose } => AgentAction::DiscoverAgents { verbose },
        AgentCommands::Sync { force } => AgentAction::SyncWithAgents { force },
        AgentCommands::Logs { follow } => AgentAction::ShowLogs { follow },
    }
}

/// How `agent start` proceeds.
#[derive(PartialEq, Eq, Structural, Debug)]
pub enum AgentStart {
    /// An agent already answers on this machine; nothing is started.
    AlreadyRunning,
    /// Re-run the tool in the background with its output in the log file.
    Daemon,
    /// Serve in this process, syncing in the background.
    Foreground,
}

/// Decides how `agent start` proceeds.
pub fn agent_start_mode(already_running: bool, daemon: bool) -> (r: AgentStart)
    ensures
        r == (if already_running {
            AgentStart::AlreadyRunning
        } else if daemon {
            AgentStart::Daemon
        } else {
            AgentStart::Foreground
        }),
{
    if already_running {
        AgentStart::AlreadyRunning
    } else if daemon {
        AgentStart::Daemon
    } else {
        AgentStart::Foreground
    }
}

/// Kinds of backup operation.
#[derive(PartialEq, Eq, Debug)]
pub enum BackupCommand {
    Create,
    List,
    Restore { backup: Option<String> },
}

/// The backup operation to run on a host.
#[derive(PartialEq, Eq, Debug)]
pub enum BackupAction {
    BackupHost,
    ListBackups,
    RestoreHost { backup: Option<String> },
}

/// Routes a backup command for a host to its operation.
pub fn handle_backup(command: BackupCommand) -> (r: BackupAction)
    ensures
        r == (match command {
            BackupCommand::Create => BackupAction::BackupHost,
            BackupCommand::List => BackupAction::ListBackups,
            BackupCommand::Restore { backup } => BackupAction::RestoreHost { backup },
        }),
{
    match command {
        BackupCommand::Create => BackupAction::BackupHost,
        BackupCommand::List => BackupAction::ListBackups,
        BackupCommand::Restore { backup } => BackupAction::RestoreHost { backup },
    }
}

/// Which Portainer installation runs.
#[derive(PartialEq, Eq, Structural, Debug)]
pub enum PortainerInstall {
    /// The server with its UI, in the given edition.
    Host { edition: PortainerEdition },
    /// The agent only.
    Agent,
}

/// The Portainer installation for the `host` flag: the server with its UI in
/// the named edition, or the agent. The edition name is checked either way
/// (ignoring case); a name that is no edition is refused before anything is
/// installed.
pub fn handle_portainer(edition: &str, host: bool) -> (r: Result<PortainerInstall, InvalidEdition>)
    ensures
        match edition_named(lowercase(edition@)) {
            None => r matches Err(e) && e.name@ == edition@,
            Some(ed) => r == Ok::<PortainerInstall, InvalidEdition>(
                if host { PortainerInstall::Host { edition: ed } } else { PortainerInstall::Agent },
            ),
        },
{
    match PortainerEdition::from_str(edition) {
        Err(e) => Err(e),
        Ok(ed) => {
            if host {
                Ok(PortainerInstall::Host { edition: ed })
            } else {
                Ok(PortainerInstall::Agent)
            }
        },
    }
}

/// What `smb` does on a host.
#[derive(PartialEq, Eq, Structural, Debug)]
pub enum SmbAction {
    Setup,
    Uninstall,
}

/// Mounts the configured shares, or removes them with `uninstall`.
pub fn handle_smb(uninstall: bool) -> (r: SmbAction)
    ensures
        r == (if uninstall { SmbAction::Uninstall } else { SmbAction::Setup }),
{
    if uninstall {
        SmbAction::Uninstall
    } else {
        SmbAction::Setup
    }
}

/// Direction of a sync of encrypted data.
#[derive(PartialEq, Eq, Structural, Debug)]
pub enum SyncDirection {
    Push,
    Pull,
}

/// Pushes local data to the host, or pulls it with `pull`.
pub fn handle_sync(pull: bool) -> (r: SyncDirection)
    ensures
        r == (if pull { SyncDirection::Pull } else { SyncDirection::Push }),
{
    if pull {
        SyncDirection::Pull
    } else {
        SyncDirection::Push
    }
}

/// Where Tailscale gets installed.
#[derive(PartialEq, Eq, Structural, Debug)]
pub enum TailscaleInstall {
    /// On this machine; no host configuration is read.
    Local,
    /// On the named host, reached with the `.env` configuration.
    OnHost,
}

/// Tailscale is installed locally for the host name `localhost`, remotely
/// otherwise.
pub fn handle_tailscale(hostname: &str) -> (r: TailscaleInstall)
    ensures
        r == (if hostname@ == "localhost"@ { TailscaleInstall::Local } else { TailscaleInstall::OnHost }),
{
    if str_eq(hostname, "localhost") {
        TailscaleInstall::Local
    } else {
        TailscaleInstall::OnHost
    }
}

/// Subcommands of `vpn`.
#[derive(PartialEq, Eq, Debug)]
pub enum VpnCommand {
    Build { github_user: String, tag: Option<String> },
    Deploy { hostname: String },
    Verify { hostname: String },
}

/// The VPN operation to run.
#[derive(PartialEq, Eq, Debug)]
pub enum VpnAction {
    /// Build and push the image, always on this machine.
    BuildAndPush { build_host: String, github_user: String, tag: Option<String> },
    Deploy { hostname: String },
    Verify { hostname: String },
}

/// Routes a `vpn` subcommand; images are built on `localhost`.
pub fn handle_vpn(command: VpnCommand) -> (r: VpnAction)
    ensures
        match command {
            VpnCommand::Build { github_user, tag } => r matches VpnAction::BuildAndPush {
                build_host,
                github_user: u,
                tag: t,
            } && build_host@ == "localhost"@ && u == github_user && t == tag,
            VpnCommand::Deploy { hostname } => r == VpnAction::Deploy { hostname },
            VpnCommand::Verify { hostname } => r == VpnAction::Verify { hostname },
        },
{
    match command {
        VpnCommand::Build { github_user, tag } => VpnAction::BuildAndPush {
            build_host: "localhost".to_string(),
            github_user,
            tag,
        },
        VpnCommand::Deploy { hostname } => VpnAction::Deploy { hostname },
        VpnCommand::Verify { hostname } => VpnAction::Verify { hostname },
    }
}

/// What `list` shows.
#[derive(PartialEq, Eq, Structural, Debug)]
pub enum ListAction {
    /// Every configured host.
    AllHosts,
    /// The services running on the given host.
    HostServices,
}

/// Lists the services of a host when one is given, else every host.
pub fn handle_list(hostname: Option<&str>) -> (r: ListAction)
    ensures
        r == (if hostname is Some { ListAction::HostServices } else { ListAction::AllHosts }),
{
    match hostname {
        Some(_) => ListAction::HostServices,
        None => ListAction::AllHosts,
    }
}

/// The host a command acts on: the given one, by default `localhost`.
pub open spec fn target_host(hostname: Option<&str>) -> Seq<char> {
    match hostname {
        Some(h) => h@,
        None => "localhost"@,
    }
}

/// The host a command acts on: the given one, by default `localhost`.
pub fn target_of(hostname: Option<&str>) -> (r: String)
    ensures
        r@ == target_host(hostname),
{
    match hostname {
        Some(h) => h.to_string(),
        None => "localhost".to_string(),
    }
}

/// What `install` does.
#[derive(PartialEq, Eq, Structural, Debug)]
pub enum InstallAction {
    Docker,
    TailscaleLocal,
    TailscaleOnHost,
    PortainerHost,
    PortainerAgent,
    CliDependencies,
}

/// Why `install` was refused.
#[derive(PartialEq, Eq, Structural, Debug)]
pub enum InstallError {
    /// Proxy hosts are configured with the `npm` command instead.
    NpmNotImplemented,
    /// Not one of docker, tailscale, portainer, npm, cli.
    UnknownService,
}

/// What installing the service named `lowered` (lower-cased) does on a
/// target that is (or is not) `localhost`.
pub open spec fn install_plan(lowered: Seq<char>, target_is_local: bool, host: bool) -> Result<InstallAction, InstallError> {
    if lowered == "docker"@ {
        Ok(InstallAction::Docker)
    } else if lowered == "tailscale"@ {
        if target_is_local { Ok(InstallAction::TailscaleLocal) } else { Ok(InstallAction::TailscaleOnHost) }
    } else if lowered == "portainer"@ {
        if host { Ok(InstallAction::PortainerHost) } else { Ok(InstallAction::PortainerAgent) }
    } else if lowered == "npm"@ {
        Err(InstallError::NpmNotImplemented)
    } else if lowered == "cli"@ {
        Ok(InstallAction::CliDependencies)
    } else {
        Err(InstallError::UnknownService)
    }
}

/// `install` for a service name that is already lower-cased.
pub fn plan_install(lowered: &str, target_is_local: bool, host: bool) -> (r: Result<InstallAction, InstallError>)
    ensures
        r == install_plan(lowered@, target_is_local, host),
{
    if str_eq(lowered, "docker") {
        Ok(InstallAction::Docker)
    } else if str_eq(lowered, "tailscale") {
        if target_is_local { Ok(InstallAction::TailscaleLocal) } else { Ok(InstallAction::TailscaleOnHost) }
    } else if str_eq(lowered, "portainer") {
        if host { Ok(InstallAction::PortainerHost) } else { Ok(InstallAction::PortainerAgent) }
    } else if str_eq(lowered, "npm") {
        Err(InstallError::NpmNotImplemented)
    } else if str_eq(lowered, "cli") {
        Ok(InstallAction::CliDependencies)
    } else {
        Err(InstallError::UnknownService)
    }
}

/// `install SERVICE` on the given host (by default `localhost`); the service
/// name is read without regard to case.  The edition only matters to the
/// Portainer installation, which the caller runs with it.
pub fn handle_install(hostname: Option<&str>, service: &str, host: bool) -> (r: Result<InstallAction, InstallError>)
    ensures
        r == install_plan(lowercase(service@), target_host(hostname) == "localhost"@, host),
{
    let target = target_of(hostname);
    let local = str_eq(target.as_str(), "localhost");
    let lowered = to_lowercase(service);
    plan_install(lowered.as_str(), local, host)
}

/// Why `uninstall SERVICE` was refused.
#[derive(PartialEq, Eq, Structural, Debug)]
pub enum UninstallError {
    NpmNotImplemented,
    PortainerNotImplemented,
    /// Not one of npm, portainer, smb.
    UnknownService,
}

/// What uninstalling the service named `lowered` does: only the SMB mounts
/// can be removed.
pub open spec fn uninstall_plan(lowered: Seq<char>) -> Result<(), UninstallError> {
    if lowered == "npm"@ {
        Err(UninstallError::NpmNotImplemented)
    } else if lowered == "portainer"@ {
        Err(UninstallError::PortainerNotImplemented)
    } else if lowered == "smb"@ {
        Ok(())
    } else {
        Err(UninstallError::UnknownService)
    }
}

/// `uninstall` for a service name that is already lower-cased.
pub fn plan_uninstall(lowered: &str) -> (r: Result<(), UninstallError>)
    ensures
        r == uninstall_plan(lowered@),
{
    if str_eq(lowered, "npm") {
        Err(UninstallError::NpmNotImplemented)
    } else if str_eq(lowered, "portainer") {
        Err(UninstallError::PortainerNotImplemented)
    } else if str_eq(lowered, "smb") {
        Ok(())
    } else {
        Err(UninstallError::UnknownService)
    }
}

/// `uninstall SERVICE`: `Ok` means the SMB mounts of the target host are
/// removed.  The service name is read without regard to case.
pub fn handle_uninstall(service: &str) -> (r: Result<(), UninstallError>)
    ensures
        r == uninstall_plan(lowercase(service@)),
{
    let lowered = to_lowercase(service);
    plan_uninstall(lowered.as_str())
}


/// Subcommands of `dev`.
#[derive(PartialEq, Eq, Debug)]
pub enum DevCommands {
    Mac,
    Ios,
    Web { bare_metal: bool, prod: bool, port: u16, static_dir: Option<String> },
    Cli,
}

/// Subcommands of `build`.
#[derive(PartialEq, Eq, Debug)]
pub enum BuildCommands {
    Ios { push: bool },
    Mac,
    Android,
    Web { release: bool, run: bool, docker: bool, push: bool },
    Cli,
}

/// Subcommands of `generate`.
#[derive(PartialEq, Eq, Structural, Clone, Copy, Debug)]
pub enum GenerateCommands {
    FfiBindings,
    Migrations,
    All,
}

/// The tool's top-level commands.
#[derive(PartialEq, Eq, Debug)]
#[allow(inconsistent_fields)]
pub enum Commands {
    Backup { service: Option<String>, env: bool, list: bool, db: bool, path: Option<String> },
    Restore { service: Option<String>, env: bool, backup: Option<String> },
    Sync { pull: bool },
    List { verbose: bool },
    Install { service: String, edition: String, host: bool },
    Uninstall { service: Option<String> },
    Provision { portainer_host: bool, portainer_edition: String },
    Smb { uninstall: bool },
    Docker { diagnose: bool },
    Npm { compose_file: String, service: Option<String> },
    Vpn { command: VpnCommand },
    Config { verbose: bool, db: bool, command: Option<ConfigCommands> },
    Db { command: DbCommands },
    Update { experimental: bool, force: bool },
    Agent { command: AgentCommands },
    Build { command: BuildCommands },
    Dev { command: DevCommands },
    Generate { command: GenerateCommands },
}

/// The handler a command is routed to, with its arguments.
#[derive(PartialEq, Eq, Debug)]
#[allow(inconsistent_fields)]
pub enum Dispatch {
    BackupDb { path: Option<String> },
    Backup { hostname: Option<String>, service: Option<String>, env: bool, list: bool },
    Restore { hostname: Option<String>, service: Option<String>, env: bool, backup: Option<String> },
    Sync { hostname: Option<String>, pull: bool },
    List { hostname: Option<String>, verbose: bool },
    Install { hostname: Option<String>, service: String, edition: String, host: bool },
    Uninstall { hostname: Option<String>, service: String },
    GuidedUninstall { hostname: Option<String> },
    Provision { hostname: Option<String>, portainer_host: bool, portainer_edition: String },
    Smb { hostname: Option<String>, uninstall: bool },
    DiagnoseDocker { hostname: Option<String> },
    Docker { target_host: String },
    Npm { hostname: Option<String>, compose_file: String, service: Option<String> },
    Vpn { command: VpnCommand },
    Update { experimental: bool, force: bool },
    Config { verbose: bool, db: bool, command: Option<ConfigCommands> },
    Db { command: DbCommands },
    Agent { command: AgentCommands },
    Build { command: BuildCommands },
    Dev { command: DevCommands },
    Generate { command: GenerateCommands },
}

/// The routing of a command given the global host option.
pub open spec fn dispatches(hostname: Option<String>, command: Commands, r: Dispatch) -> bool {
    match command {
        Commands::Backup { service, env, list, db, path } => if db {
            r == Dispatch::BackupDb { path }
        } else {
            r == Dispatch::Backup { hostname, service, env, list }
        },
        Commands::Restore { service, env, backup } => r == Dispatch::Restore { hostname, service, env, backup },
        Commands::Sync { pull } => r == Dispatch::Sync { hostname, pull },
        Commands::List { verbose } => r == Dispatch::List { hostname, verbose },
        Commands::Install { service, edition, host } => r == Dispatch::Install { hostname, service, edition, host },
        Commands::Uninstall { service } => match service {
            Some(service) => r == Dispatch::Uninstall { hostname, service },
            None => r == Dispatch::GuidedUninstall { hostname },
        },
        Commands::Provision { portainer_host, portainer_edition } => r == Dispatch::Provision {
            hostname,
            portainer_host,
            portainer_edition,
        },
        Commands::Smb { uninstall } => r == Dispatch::Smb { hostname, uninstall },
        Commands::Docker { diagnose } => if diagnose {
            r == Dispatch::DiagnoseDocker { hostname }
        } else {
            r matches Dispatch::Docker { target_host } && target_host@ == (match hostname {
                Some(h) => h@,
                None => "localhost"@,
            })
        },
        Commands::Npm { compose_file, service } => r == Dispatch::Npm { hostname, compose_file, service },
        Commands::Vpn { command } => r == Dispatch::Vpn { command },
        Commands::Config { verbose, db, command } => r == Dispatch::Config { verbose, db, command },
        Commands::Db { command } => r == Dispatch::Db { command },
        Commands::Update { experimental, force } => r == Dispatch::Update { experimental, force },
        Commands::Agent { command } => r == Dispatch::Agent { command },
        Commands::Build { command } => r == Dispatch::Build { command },
        Commands::Dev { command } => r == Dispatch::Dev { command },
        Commands::Generate { command } => r == Dispatch::Generate { command },
    }
}

/// Routes a command to its handler; `hostname` is the global `--hostname`
/// option.  Docker is installed on `localhost` when no host is given.
pub fn handle_command(hostname: Option<String>, command: Commands) -> (r: Dispatch)
    ensures
        dispatches(hostname, command, r),
{
    match command {
        Commands::Backup { service, env, list, db, path } => if db {
            Dispatch::BackupDb { path }
        } else {
            Dispatch::Backup { hostname, service, env, list }
        },
        Commands::Restore { service, env, backup } => Dispatch::Restore { hostname, service, env, backup },
        Commands::Sync { pull } => Dispatch::Sync { hostname, pull },
        Commands::List { verbose } => Dispatch::List { hostname, verbose },
        Commands::Install { service, edition, host } => Dispatch::Install { hostname, service, edition, host },
        Commands::Uninstall { service } => match service {
            Some(service) => Dispatch::Uninstall { hostname, service },
            None => Dispatch::GuidedUninstall { hostname },
        },
        Commands::Provision { portainer_host, portainer_edition } => Dispatch::Provision {
            hostname,
            portainer_host,
            portainer_edition,
        },
        Commands::Smb { uninstall } => Dispatch::Smb { hostname, uninstall },
        Commands::Docker { diagnose } => if diagnose {
            Dispatch::DiagnoseDocker { hostname }
        } else {
            let target_host = match &hostname {
                Some(h) => h.as_str().to_string(),
                None => "localhost".to_string(),
            };
            Dispatch::Docker { target_host }
        },
        Commands::Npm { compose_file, service } => Dispatch::Npm { hostname, compose_file, service },
        Commands::Vpn { command } => Dispatch::Vpn { command },
        Commands::Config { verbose, db, command } => Dispatch::Config { verbose, db, command },
        Commands::Db { command } => Dispatch::Db { command },
        Commands::Update { experimental, force } => Dispatch::Update { experimental, force },
        Commands::Agent { command } => Dispatch::Agent { command },
        Commands::Build { command } => Dispatch::Build { command },
        Commands::Dev { command } => Dispatch::Dev { command },
        Commands::Generate { command } => Dispatch::Generate { command },
    }
}

/// What `dev web` runs.
#[derive(PartialEq, Eq, Structural, Debug)]
pub enum WebDevMode {
    /// The production container.
    Production,
    /// The Rust server and the Svelte dev server, without Docker.
    BareMetal,
    /// The development containers.
    Docker,
}

/// `--prod` wins over `--bare-metal`; by default the development containers run.
pub fn web_dev_mode(bare_metal: bool, prod: bool) -> (r: WebDevMode)
    ensures
        r == (if prod { WebDevMode::Production } else if bare_metal { WebDevMode::BareMetal } else { WebDevMode::Docker }),
{
    if prod {
        WebDevMode::Production
    } else if bare_metal {
        WebDevMode::BareMetal
    } else {
        WebDevMode::Docker
    }
}

/// What a `generate` subcommand produces: migration declarations first, then
/// the FFI bindings.
pub fn handle_generate(command: GenerateCommands) -> (r: (bool, bool))
    ensures
        r == (match command {
            GenerateCommands::FfiBindings => (false, true),
            GenerateCommands::Migrations => (true, false),
            GenerateCommands::All => (true, true),
        }),
{
    match command {
        GenerateCommands::FfiBindings => (false, true),
        GenerateCommands::Migrations => (true, false),
        GenerateCommands::All => (true, true),
    }
}

/// The provisioning of a host (`provision`): what it installs and which
/// compose file a remote host receives; `is_local` tells whether the host is
/// this machine.
pub fn handle_provision(portainer_host: bool, portainer_edition: &str, is_local: bool) -> (r: Result<
    crate::portainer::ProvisionPlan,
    crate::portainer::InvalidEdition,
>)
    ensures
        match r {
            Ok(p) => {
                &&& (portainer_host ==> (crate::portainer::edition_named(lowercase(portainer_edition@)) matches Some(e)
                    && p.portainer_host == Some(e)))
                &&& (!portainer_host ==> p.portainer_host is None)
                &&& (is_local ==> p.compose_file is None)
                &&& (!is_local ==> (p.compose_file matches Some(f) && f@ == (match p.portainer_host {
                    Some(crate::portainer::PortainerEdition::Ce) => "portainer.docker-compose.yml"@,
                    Some(crate::portainer::PortainerEdition::Be) => "portainer-be.docker-compose.yml"@,
                    None => crate::portainer::agent_compose_file(),
                })))
            },
            Err(err) => portainer_host && crate::portainer::edition_named(lowercase(portainer_edition@)) is None
                && err.name@ == portainer_edition@,
        },
{
    crate::portainer::provision_plan(portainer_host, portainer_edition, is_local)
}

} // verus!
