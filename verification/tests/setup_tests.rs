use ubi::setup::{
    arch_name, detect_linux_distribution, first_found, pcre_locations, pcre_package, pcre_search_dirs,
    shell_config_files, shell_config_lines, updated_shell_config,
};

const OS_RELEASE: &str = "PRETTY_NAME=\"Ubuntu 22.04.3 LTS\"\nNAME=\"Ubuntu\"\nVERSION_ID=\"22.04\"\nID=ubuntu\nID_LIKE=debian\n";

#[test]
fn distribution_from_os_release() {
    let (name, id) = detect_linux_distribution(Some(OS_RELEASE), None, true, false, false);
    assert_eq!(name, "Ubuntu");
    assert_eq!(id, "ubuntu");
}

#[test]
fn os_release_without_fields_is_unknown() {
    let (name, id) = detect_linux_distribution(Some("VERSION=1\n"), Some("DISTRIB_ID=Arch\n"), true, true, true);
    assert_eq!(name, "Unknown");
    assert_eq!(id, "unknown");
}

#[test]
fn distribution_from_lsb_release_is_lower_cased() {
    let (name, id) = detect_linux_distribution(None, Some("DISTRIB_ID=\"ManjaroLinux\"\nDISTRIB_RELEASE=23\n"), false, false, false);
    assert_eq!(name, "manjarolinux");
    assert_eq!(id, "manjarolinux");
}

#[test]
fn distribution_from_marker_files() {
    assert_eq!(detect_linux_distribution(None, None, true, true, false), ("Debian".to_string(), "debian".to_string()));
    assert_eq!(detect_linux_distribution(None, None, false, true, true), ("Fedora".to_string(), "fedora".to_string()));
    assert_eq!(detect_linux_distribution(None, None, false, false, true), ("Red Hat".to_string(), "rhel".to_string()));
    assert_eq!(detect_linux_distribution(None, None, false, false, false), ("Unknown".to_string(), "unknown".to_string()));
}

#[test]
fn architecture_names() {
    assert_eq!(arch_name(Some("x86_64\n")), "x86_64");
    assert_eq!(arch_name(Some("aarch64\n")), "arm64");
    assert_eq!(arch_name(Some("arm64")), "arm64");
    assert_eq!(arch_name(Some("i686\n")), "x86");
    assert_eq!(arch_name(None), "x86");
}

#[test]
fn pcre_packages_by_distribution() {
    assert_eq!(pcre_package("debian"), Some(("libpcre3-dev".to_string(), "  sudo apt-get install libpcre3-dev".to_string())));
    assert_eq!(pcre_package("centos"), Some(("pcre-devel".to_string(), "  sudo dnf install pcre-devel".to_string())));
    assert_eq!(pcre_package("manjaro"), Some(("pcre".to_string(), "  sudo pacman -S pcre".to_string())));
    assert_eq!(pcre_package("suse"), Some(("pcre-devel".to_string(), "  sudo zypper install pcre-devel".to_string())));
    assert_eq!(pcre_package("alpine"), Some(("pcre-dev".to_string(), "  sudo apk add pcre-dev".to_string())));
    assert_eq!(pcre_package("gentoo"), None);
}

#[test]
fn pcre_locations_by_distribution() {
    let common = vec!["/usr/lib/libpcre.so", "/usr/lib64/libpcre.so", "/usr/local/lib/libpcre.so", "/lib/libpcre.so"];
    let mut alpine = common.clone();
    alpine.push("/lib/libpcre.so.1");
    assert_eq!(pcre_locations("alpine"), alpine);
    let mut ubuntu = common.clone();
    ubuntu.extend(["/usr/lib/x86_64-linux-gnu/libpcre.so", "/usr/lib/x86_64-linux-gnu/libpcre.so.3", "/lib/x86_64-linux-gnu/libpcre.so.3"]);
    assert_eq!(pcre_locations("ubuntu"), ubuntu);
    assert_eq!(pcre_locations("gentoo"), common);
    assert_eq!(pcre_search_dirs().len(), 6);
    assert_eq!(pcre_search_dirs()[4], "/usr/lib/x86_64-linux-gnu");
}

#[test]
fn shell_files_and_lines() {
    assert_eq!(
        shell_config_files("/home/u"),
        vec!["/home/u/.bashrc", "/home/u/.zshrc", "/home/u/.bash_profile", "/home/u/.profile"]
    );
    assert_eq!(
        shell_config_lines("/home/u/.ubi"),
        "\n# Added by Ubi\nexport LD_LIBRARY_PATH=/home/u/.ubi/lib:$LD_LIBRARY_PATH\n"
    );
}

#[test]
fn shell_config_is_updated_once() {
    let first = updated_shell_config("alias ll='ls -l'\n", "/home/u/.ubi").unwrap();
    assert_eq!(first, "alias ll='ls -l'\n\n# Added by Ubi\nexport LD_LIBRARY_PATH=/home/u/.ubi/lib:$LD_LIBRARY_PATH\n");
    assert_eq!(updated_shell_config(&first, "/home/u/.ubi"), None);
}

#[test]
fn shell_config_with_other_dir_is_updated() {
    let content = "export LD_LIBRARY_PATH=/opt/ubi/lib:$LD_LIBRARY_PATH\n";
    assert!(updated_shell_config(content, "/home/u/.ubi").is_some());
    assert_eq!(updated_shell_config(content, "/opt/ubi"), None);
}

#[test]
fn first_found_is_first_line() {
    assert_eq!(first_found("/usr/lib/libpcre.so.3\n/lib/libpcre.so.1\n"), Some("/usr/lib/libpcre.so.3".to_string()));
    assert_eq!(first_found(""), None);
    assert_eq!(first_found("\n"), Some(String::new()));
}
