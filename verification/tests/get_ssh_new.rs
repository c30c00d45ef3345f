use chithi::get_ssh::GetSsh;

#[test]
fn get_ssh_simple_user_hosts() {
    let GetSsh { host, fs, is_root } = GetSsh::new(None, String::from("user@host:pool"));
    assert_eq!(host, Some("user@host".to_string()));
    assert_eq!(fs, "pool");
    assert_eq!(is_root, true);
    let GetSsh { host, fs, is_root } =
        GetSsh::new(None, String::from("user@host:pool/filesystem"));
    assert_eq!(host, Some("user@host".to_string()));
    assert_eq!(fs, "pool/filesystem");
    assert_eq!(is_root, false);
}

#[test]
fn get_ssh_simple_hosts_without_users() {
    let GetSsh { host, fs, is_root } = GetSsh::new(None, String::from("host:pool"));
    assert_eq!(host, Some("host".to_string()));
    assert_eq!(fs, "pool");
    assert_eq!(is_root, true);
    let GetSsh { host, fs, is_root } = GetSsh::new(None, String::from("host:pool/filesystem"));
    assert_eq!(host, Some("host".to_string()));
    assert_eq!(fs, "pool/filesystem");
    assert_eq!(is_root, false);
    let GetSsh { host, fs, is_root } = GetSsh::new(None, String::from("host:pool/filesystem:alsofs"));
    assert_eq!(host, Some("host".to_string()));
    assert_eq!(fs, "pool/filesystem:alsofs");
    assert_eq!(is_root, false);
}

#[test]
fn get_ssh_simple_user_hosts_pool_fs_colon() {
    let GetSsh { host, fs, is_root } =
        GetSsh::new(None, String::from("user@host:pool:alsopool"));
    assert_eq!(host, Some("user@host".to_string()));
    assert_eq!(fs, "pool:alsopool");
    assert_eq!(is_root, true);
    let GetSsh { host, fs, is_root } = GetSsh::new(
        None,
        String::from("user@host:pool:alsopool/filesystem:alsofs"),
    );
    assert_eq!(host, Some("user@host".to_string()));
    assert_eq!(fs, "pool:alsopool/filesystem:alsofs");
    assert_eq!(is_root, false);
}

#[test]
fn get_ssh_empty_user_hosts() {
    let GetSsh { host, fs, is_root } = GetSsh::new(Some("".to_string()), String::from("pool"));
    assert_eq!(host, None);
    assert_eq!(fs, "pool");
    assert_eq!(is_root, true);
    let GetSsh { host, fs, is_root } =
        GetSsh::new(Some("".to_string()), String::from("pool/filesystem"));
    assert_eq!(host, None);
    assert_eq!(fs, "pool/filesystem");
    assert_eq!(is_root, false);
}

#[test]
fn get_ssh_empty_user_hosts_pool_fs_colon() {
    let GetSsh { host, fs, is_root } =
        GetSsh::new(Some("".to_string()), String::from("poolnothost:alsopool"));
    assert_eq!(host, None);
    assert_eq!(fs, "poolnothost:alsopool");
    assert_eq!(is_root, true);
    let GetSsh { host, fs, is_root } = GetSsh::new(
        Some("".to_string()),
        String::from("poolnothost:alsopool/filesystem:alsofs"),
    );
    assert_eq!(host, None);
    assert_eq!(fs, "poolnothost:alsopool/filesystem:alsofs");
    assert_eq!(is_root, false);
}

#[test]
fn get_ssh_nonempty_user_hosts_pool_fs_colon() {
    let GetSsh { host, fs, is_root } =
        GetSsh::new(Some("user@host".to_string()), String::from("poolnothost:alsopool"));
    assert_eq!(host, Some("user@host".to_string()));
    assert_eq!(fs, "poolnothost:alsopool");
    assert_eq!(is_root, true);
    let GetSsh { host, fs, is_root } = GetSsh::new(
        Some("user@host".to_string()),
        String::from("poolnothost:alsopool/filesystem:alsofs"),
    );
    assert_eq!(host, Some("user@host".to_string()));
    assert_eq!(fs, "poolnothost:alsopool/filesystem:alsofs");
    assert_eq!(is_root, false);
    let GetSsh { host, fs, is_root } = GetSsh::new(
        Some("user:wierduser@host:wierdhost".to_string()),
        String::from("poolnothost:alsopool/filesystem:alsofs"),
    );
    assert_eq!(host, Some("user:wierduser@host:wierdhost".to_string()));
    assert_eq!(fs, "poolnothost:alsopool/filesystem:alsofs");
    assert_eq!(is_root, false);
}
