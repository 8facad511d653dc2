use ivara::cli::{needs_database, Commands, HooksAction, ScopeArg};
use ivara::hooks::Scope;

#[test]
fn scope_arguments_convert() {
    assert_eq!(Scope::from(ScopeArg::User), Scope::User);
    assert_eq!(Scope::from(ScopeArg::Project), Scope::Project);
}

#[test]
fn hook_commands_skip_the_database() {
    assert!(!needs_database(&Commands::InstallHooks { scope: ScopeArg::User }));
    assert!(!needs_database(&Commands::UninstallHooks { scope: ScopeArg::Project }));
    assert!(!needs_database(&Commands::Hooks { action: HooksAction::Status { scope: ScopeArg::User } }));
    assert!(needs_database(&Commands::Capture));
    assert!(needs_database(&Commands::Stream { session: "s".to_string() }));
}
