use conda_pilot::commands::clean_args;
use conda_pilot::commands::create_environment_args;
use conda_pilot::commands::info_envs_args;
use conda_pilot::commands::install_package_args;
use conda_pilot::commands::package_info_url;
use conda_pilot::commands::parse_active_environment;
use conda_pilot::commands::remove_package_args;
use conda_pilot::commands::search_url;
use conda_pilot::commands::update_all_args;
use conda_pilot::commands::verify_environment_args;
use conda_pilot::Version;

#[test]
fn install_without_version_uses_bare_name() {
    let args = install_package_args("work", "scipy", None);
    assert_eq!(args, vec!["install", "-n", "work", "scipy", "-y"]);
}

#[test]
fn install_with_version_pins_it() {
    let args = install_package_args("work", "scipy", Some("1.2"));
    assert_eq!(args, vec!["install", "-n", "work", "scipy=1.2", "-y"]);
}

#[test]
fn create_arguments_carry_the_interpreter_version() {
    let args = create_environment_args("lab", "3.8");
    assert_eq!(args, vec!["create", "-n", "lab", "python=3.8", "-y"]);
}

#[test]
fn remove_update_clean_info_verify_arguments() {
    assert_eq!(remove_package_args("lab", "numpy"), vec!["remove", "-n", "lab", "numpy", "-y"]);
    assert_eq!(update_all_args("lab"), vec!["update", "--all", "-n", "lab", "-y"]);
    assert_eq!(clean_args(), vec!["clean", "--all", "-y"]);
    assert_eq!(info_envs_args(), vec!["info", "--envs"]);
    assert_eq!(verify_environment_args("lab"), vec!["verify", "-n", "lab"]);
}

#[test]
fn registry_urls() {
    assert_eq!(
        search_url("https://repo.example.org", "numpy"),
        "https://repo.example.org/search?q=numpy"
    );
    assert_eq!(
        package_info_url("https://repo.example.org", "numpy"),
        "https://repo.example.org/get/numpy"
    );
}

#[test]
fn pinned_install_uses_the_rendered_version() {
    let version = Version::release(1, 24, 0).to_text();
    let args = install_package_args("base", "numpy", Some(&version));
    assert_eq!(args, vec!["install", "-n", "base", "numpy=1.24.0", "-y"]);
}

#[test]
fn active_environment_is_the_marked_line() {
    let lines = vec![
        String::from("# conda environments:"),
        String::from("#"),
        String::from("base                     /home/u/anaconda3"),
        String::from("work                  *  /home/u/anaconda3/envs/work"),
        String::from("lab                      /home/u/anaconda3/envs/lab"),
    ];
    assert_eq!(parse_active_environment(&lines), Some(String::from("work")));
}

#[test]
fn marker_itself_can_be_the_first_word() {
    let lines = vec![String::from("  *  /home/u/anaconda3")];
    assert_eq!(parse_active_environment(&lines), Some(String::from("*")));
}

#[test]
fn zero_version_renders() {
    assert_eq!(Version::release(0, 0, 0).to_text(), "0.0.0");
}

#[test]
fn no_marked_line_means_no_active_environment() {
    let lines = vec![
        String::from("# conda environments:"),
        String::from("base                     /home/u/anaconda3"),
    ];
    assert_eq!(parse_active_environment(&lines), None);
}
