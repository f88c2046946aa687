use halvor::commands::{
    agent_start_mode, handle_agent, handle_backup, handle_command, handle_config, handle_config_command,
    handle_generate, handle_install, handle_list, handle_portainer, handle_provision,
    handle_smb, handle_sync, handle_tailscale, handle_uninstall, handle_vpn, target_of, web_dev_mode,
    AgentAction, AgentCommands, AgentStart, BackupAction, BackupCommand, Commands, ConfigCommands,
    ConfigError, ConfigPlan, DbCommands, Dispatch, GenerateCommands, GlobalConfigAction,
    HostConfigAction, InstallAction, InstallError, ListAction, MigrateCommands, PortainerInstall,
    SmbAction, SyncDirection, TailscaleInstall, UninstallError, VpnAction, VpnCommand, WebDevMode,
};
use halvor::config::HostField;
use halvor::migrations::{handle_db_command, handle_migrate_command, DbAction, MigrateAction};
use halvor::portainer::PortainerEdition;
use halvor::settings::ReleaseChannel;

#[test]
fn config_argument_that_is_not_a_word_names_a_host() {
    assert_eq!(handle_config(Some("frigg"), false, false, None), Ok(ConfigPlan::ForHost(HostConfigAction::Show)));
    assert_eq!(
        handle_config(Some("frigg"), false, false, Some(ConfigCommands::Ip { value: "1.2.3.4".to_string() })),
        Ok(ConfigPlan::ForHost(HostConfigAction::SetField { field: HostField::Ip, value: "1.2.3.4".to_string() }))
    );
    assert_eq!(handle_config(Some("frigg"), false, false, Some(ConfigCommands::Diff)), Err(ConfigError::DiffIsGlobal));
    assert_eq!(handle_config(Some("frigg"), false, false, Some(ConfigCommands::Init)), Err(ConfigError::NotForHost));
    assert_eq!(
        handle_config(Some("frigg"), false, false, Some(ConfigCommands::Delete { from_env: true })),
        Ok(ConfigPlan::ForHost(HostConfigAction::Delete { from_env: true }))
    );
}

#[test]
fn config_words_select_global_commands() {
    assert_eq!(
        handle_config(Some("SHOW"), true, false, None),
        Ok(ConfigPlan::Global(GlobalConfigAction::ShowCurrent { verbose: true }))
    );
    assert_eq!(
        handle_config(Some("show"), false, true, None),
        Ok(ConfigPlan::Global(GlobalConfigAction::ShowDb { verbose: false }))
    );
    assert_eq!(
        handle_config(Some("stable"), false, false, None),
        Ok(ConfigPlan::Global(GlobalConfigAction::SetChannel { channel: ReleaseChannel::Stable }))
    );
    assert_eq!(handle_config(Some("backup"), false, false, None), Ok(ConfigPlan::Global(GlobalConfigAction::BackupAllToEnv)));
    assert_eq!(
        handle_config(Some("set-env"), false, false, Some(ConfigCommands::SetEnv { path: "/x/.env".to_string() })),
        Ok(ConfigPlan::Global(GlobalConfigAction::SetEnv { path: "/x/.env".to_string() }))
    );
    assert_eq!(handle_config(None, false, false, Some(ConfigCommands::Delete { from_env: false })), Err(ConfigError::DeleteNeedsHost));
    assert_eq!(
        handle_config(None, false, false, Some(ConfigCommands::Ip { value: "x".to_string() })),
        Err(ConfigError::FieldNeedsHost)
    );
    assert_eq!(handle_config(None, false, false, None), Ok(ConfigPlan::Global(GlobalConfigAction::ShowCurrent { verbose: false })));
}

#[test]
fn config_service_uses_its_own_words() {
    assert_eq!(
        handle_config_command(Some("list"), false, false, None),
        Ok(ConfigPlan::Global(GlobalConfigAction::ShowCurrent { verbose: false }))
    );
    assert_eq!(handle_config_command(Some("show"), false, false, None), Ok(ConfigPlan::ForHost(HostConfigAction::Show)));
    assert_eq!(
        handle_config_command(None, false, false, Some(ConfigCommands::Tailscale { value: "t".to_string() })),
        Err(ConfigError::NeedsHost)
    );
    assert_eq!(
        handle_config_command(Some("frigg"), false, false, Some(ConfigCommands::Backup)),
        Ok(ConfigPlan::ForHost(HostConfigAction::BackupToEnv))
    );
    assert_eq!(
        handle_config_command(Some("Experimental"), false, false, None),
        Ok(ConfigPlan::Global(GlobalConfigAction::SetChannel { channel: ReleaseChannel::Experimental }))
    );
}

#[test]
fn commands_route_to_their_handlers() {
    let h = Some("frigg".to_string());
    assert_eq!(
        handle_command(h.clone(), Commands::Backup { service: None, env: false, list: true, db: false, path: None }),
        Dispatch::Backup { hostname: h.clone(), service: None, env: false, list: true }
    );
    assert_eq!(
        handle_command(None, Commands::Backup { service: None, env: false, list: false, db: true, path: Some("/b".to_string()) }),
        Dispatch::BackupDb { path: Some("/b".to_string()) }
    );
    assert_eq!(handle_command(None, Commands::Docker { diagnose: false }), Dispatch::Docker { target_host: "localhost".to_string() });
    assert_eq!(handle_command(h.clone(), Commands::Docker { diagnose: false }), Dispatch::Docker { target_host: "frigg".to_string() });
    assert_eq!(handle_command(h.clone(), Commands::Docker { diagnose: true }), Dispatch::DiagnoseDocker { hostname: h.clone() });
    assert_eq!(handle_command(None, Commands::Uninstall { service: None }), Dispatch::GuidedUninstall { hostname: None });
    assert_eq!(
        handle_command(None, Commands::Generate { command: GenerateCommands::All }),
        Dispatch::Generate { command: GenerateCommands::All }
    );
}

#[test]
fn install_and_uninstall_read_service_names_in_any_case() {
    assert_eq!(handle_install(None, "Docker", false), Ok(InstallAction::Docker));
    assert_eq!(handle_install(None, "tailscale", false), Ok(InstallAction::TailscaleLocal));
    assert_eq!(handle_install(Some("frigg"), "TAILSCALE", false), Ok(InstallAction::TailscaleOnHost));
    assert_eq!(handle_install(Some("localhost"), "tailscale", false), Ok(InstallAction::TailscaleLocal));
    assert_eq!(handle_install(None, "portainer", true), Ok(InstallAction::PortainerHost));
    assert_eq!(handle_install(None, "portainer", false), Ok(InstallAction::PortainerAgent));
    assert_eq!(handle_install(None, "npm", false), Err(InstallError::NpmNotImplemented));
    assert_eq!(handle_install(None, "cli", false), Ok(InstallAction::CliDependencies));
    assert_eq!(handle_install(None, "redis", false), Err(InstallError::UnknownService));
    assert_eq!(handle_uninstall("SMB"), Ok(()));
    assert_eq!(handle_uninstall("npm"), Err(UninstallError::NpmNotImplemented));
    assert_eq!(handle_uninstall("portainer"), Err(UninstallError::PortainerNotImplemented));
    assert_eq!(handle_uninstall("x"), Err(UninstallError::UnknownService));
}

#[test]
fn small_handlers() {
    assert_eq!(handle_agent(AgentCommands::Start { port: 13001, daemon: true }), AgentAction::StartAgent { port: 13001, daemon: true });
    assert_eq!(handle_agent(AgentCommands::Logs { follow: false }), AgentAction::ShowLogs { follow: false });
    assert_eq!(agent_start_mode(true, true), AgentStart::AlreadyRunning);
    assert_eq!(agent_start_mode(false, true), AgentStart::Daemon);
    assert_eq!(agent_start_mode(false, false), AgentStart::Foreground);
    assert_eq!(handle_backup(BackupCommand::Restore { backup: Some("b1".to_string()) }), BackupAction::RestoreHost { backup: Some("b1".to_string()) });
    assert_eq!(handle_backup(BackupCommand::List), BackupAction::ListBackups);
    assert_eq!(handle_portainer("CE", true).unwrap(), PortainerInstall::Host { edition: PortainerEdition::Ce });
    assert_eq!(handle_portainer("business", true).unwrap(), PortainerInstall::Host { edition: PortainerEdition::Be });
    assert_eq!(handle_portainer("be", false).unwrap(), PortainerInstall::Agent);
    assert_eq!(handle_portainer("enterprise", true).unwrap_err().name, "enterprise");
    assert_eq!(handle_portainer("", false).unwrap_err().name, "");
    assert_eq!(handle_smb(true), SmbAction::Uninstall);
    assert_eq!(handle_sync(false), SyncDirection::Push);
    assert_eq!(handle_tailscale("localhost"), TailscaleInstall::Local);
    assert_eq!(handle_tailscale("frigg"), TailscaleInstall::OnHost);
    assert_eq!(handle_list(None), ListAction::AllHosts);
    assert_eq!(handle_list(Some("x")), ListAction::HostServices);
    assert_eq!(target_of(None), "localhost");
    assert_eq!(web_dev_mode(true, true), WebDevMode::Production);
    assert_eq!(web_dev_mode(true, false), WebDevMode::BareMetal);
    assert_eq!(handle_generate(GenerateCommands::Migrations), (true, false));
    assert_eq!(
        handle_vpn(VpnCommand::Build { github_user: "me".to_string(), tag: None }),
        VpnAction::BuildAndPush { build_host: "localhost".to_string(), github_user: "me".to_string(), tag: None }
    );
}

#[test]
fn provisioning_plans() {
    let p = handle_provision(true, "BE", false).unwrap();
    assert_eq!(p.portainer_host, Some(PortainerEdition::Be));
    assert_eq!(p.compose_file, Some("portainer-be.docker-compose.yml".to_string()));
    let p = handle_provision(false, "nonsense", false).unwrap();
    assert_eq!(p.portainer_host, None);
    assert_eq!(p.compose_file, Some("portainer-agent.docker-compose.yml".to_string()));
    let p = handle_provision(true, "ce", true).unwrap();
    assert_eq!(p.compose_file, None);
    let e = handle_provision(true, "xe", false).unwrap_err();
    assert_eq!(e.name, "xe");
}

#[test]
fn db_and_migrate_routing() {
    assert_eq!(handle_db_command(DbCommands::Migrate { command: None }), DbAction::MigrateAll);
    assert_eq!(
        handle_db_command(DbCommands::Migrate { command: Some(MigrateCommands::GenerateShort { description: vec!["add".to_string()] }) }),
        DbAction::Migrate(MigrateAction::Generate { description: vec!["add".to_string()] })
    );
    assert_eq!(handle_db_command(DbCommands::Sync), DbAction::SyncFromEnv);
    assert_eq!(handle_migrate_command(MigrateCommands::Down), MigrateAction::Down);
}

#[test]
fn portainer_editions() {
    assert_eq!(PortainerEdition::from_str("CE").unwrap(), PortainerEdition::Ce);
    assert_eq!(PortainerEdition::from_str("business-edition").unwrap(), PortainerEdition::Be);
    assert!(PortainerEdition::from_str("enterprise").is_err());
    assert_eq!(PortainerEdition::Be.display_name(), "Business Edition");
    assert_eq!(PortainerEdition::Ce.compose_file(), "portainer.docker-compose.yml");
}

#[test]
fn host_words_follow_the_command_version() {
    assert_eq!(handle_config(Some("frigg"), false, false, Some(ConfigCommands::Show)), Ok(ConfigPlan::ForHost(HostConfigAction::Show)));
    assert_eq!(handle_config(Some("frigg"), false, false, Some(ConfigCommands::List)), Err(ConfigError::NotForHost));
    assert_eq!(
        handle_config(Some("frigg"), false, false, Some(ConfigCommands::BackupToEnv)),
        Ok(ConfigPlan::ForHost(HostConfigAction::BackupToEnv))
    );
    assert_eq!(handle_config(Some("frigg"), false, false, Some(ConfigCommands::Backup)), Err(ConfigError::NotForHost));
    assert_eq!(
        handle_config_command(Some("frigg"), false, false, Some(ConfigCommands::List)),
        Ok(ConfigPlan::ForHost(HostConfigAction::Show))
    );
    assert_eq!(handle_config_command(Some("frigg"), false, false, Some(ConfigCommands::Show)), Err(ConfigError::NotForHost));
    assert_eq!(
        handle_config_command(Some("frigg"), false, false, Some(ConfigCommands::BackupToEnv)),
        Err(ConfigError::NotForHost)
    );
}
