use converge_app::config::{AppConfig, AuthConfig, AuthProvider, ProviderConfig};
use converge_app::text::u64_to_string;
use converge_app::ui::{JobStatus, SubmitForm, UiView};

#[test]
fn default_app_config() {
    let config = AppConfig::default();
    assert_eq!(config.host, "0.0.0.0");
    assert_eq!(config.port, 8080);
    assert_eq!(config.enabled_packs, vec!["growth-strategy".to_string()]);
    assert!(config.providers.prefer.is_empty());
    assert!(config.providers.exclude.is_empty());
    assert!(config.providers.overrides.is_empty());
    assert!(!config.auth.enabled);
    assert!(matches!(config.auth.provider, AuthProvider::NoAuth));
}

#[test]
fn default_auth_and_provider_config() {
    let auth = AuthConfig::default();
    assert!(!auth.enabled);
    let providers = ProviderConfig::default();
    assert!(providers.overrides.is_empty());
}

#[test]
fn view_tabs_and_titles() {
    let views = UiView::all();
    assert_eq!(views.len(), 5);
    assert_eq!(views[0], UiView::Jobs);
    assert!(!views.contains(&UiView::JobDetail));
    assert_eq!(UiView::Jobs.title(), "Jobs");
    assert_eq!(UiView::JobDetail.title(), "Job Details");
    assert_eq!(UiView::Agents.title(), "Agents");
}

#[test]
fn job_status_text() {
    assert_eq!(JobStatus::Pending.as_str(), "Pending");
    assert_eq!(JobStatus::Converged.as_str(), "Converged");
    assert_eq!(JobStatus::Failed.as_str(), "Failed");
}

#[test]
fn submit_form_defaults() {
    let form = SubmitForm::new();
    assert_eq!(form.pack, "");
    assert_eq!(form.seeds, "");
    assert_eq!(form.max_cycles, "50");
    assert_eq!(form.selected_field, 0);
    assert!(form.error.is_none());
    assert!(form.success.is_none());
}

#[test]
fn decimal_rendering() {
    assert_eq!(u64_to_string(0), "0");
    assert_eq!(u64_to_string(7), "7");
    assert_eq!(u64_to_string(1203), "1203");
    assert_eq!(u64_to_string(u64::MAX), "18446744073709551615");
}
