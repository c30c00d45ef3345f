use chithi::fs::{Fs, Role};

#[test]
fn fs_simple_user_hosts() {
    let Fs {
        host,
        fs,
        role: _,
        origin: _,
    } = Fs::new(None, "user@host:pool", Role::Source);
    assert_eq!(host, Some("user@host"));
    assert_eq!(fs, "pool");
    let Fs {
        host,
        fs,
        role: _,
        origin: _,
    } = Fs::new(None, "user@host:pool/filesystem", Role::Source);
    assert_eq!(host, Some("user@host"));
    assert_eq!(fs, "pool/filesystem");
}

#[test]
fn fs_simple_hosts_without_users() {
    let Fs {
        host,
        fs,
        role: _,
        origin: _,
    } = Fs::new(None, "host:pool", Role::Source);
    assert_eq!(host, Some("host"));
    assert_eq!(fs, "pool");
    let Fs {
        host,
        fs,
        role: _,
        origin: _,
    } = Fs::new(None, "host:pool/filesystem", Role::Source);
    assert_eq!(host, Some("host"));
    assert_eq!(fs, "pool/filesystem");
    let Fs {
        host,
        fs,
        role: _,
        origin: _,
    } = Fs::new(None, "host:pool/filesystem:alsofs", Role::Source);
    assert_eq!(host, Some("host"));
    assert_eq!(fs, "pool/filesystem:alsofs");
}

#[test]
fn fs_simple_user_hosts_pool_fs_colon() {
    let Fs {
        host,
        fs,
        role: _,
        origin: _,
    } = Fs::new(None, "user@host:pool:alsopool", Role::Source);
    assert_eq!(host, Some("user@host"));
    assert_eq!(fs, "pool:alsopool");
    let Fs {
        host,
        fs,
        role: _,
        origin: _,
    } = Fs::new(
        None,
        "user@host:pool:alsopool/filesystem:alsofs",
        Role::Source,
    );
    assert_eq!(host, Some("user@host"));
    assert_eq!(fs, "pool:alsopool/filesystem:alsofs");
}

#[test]
fn fs_empty_user_hosts() {
    let Fs {
        host,
        fs,
        role: _,
        origin: _,
    } = Fs::new(Some(""), "pool", Role::Source);
    assert_eq!(host, None);
    assert_eq!(fs, "pool");
    let Fs {
        host,
        fs,
        role: _,
        origin: _,
    } = Fs::new(Some(""), "pool/filesystem", Role::Source);
    assert_eq!(host, None);
    assert_eq!(fs, "pool/filesystem");
}

#[test]
fn fs_empty_user_hosts_pool_fs_colon() {
    let Fs {
        host,
        fs,
        role: _,
        origin: _,
    } = Fs::new(Some(""), "poolnothost:alsopool", Role::Source);
    assert_eq!(host, None);
    assert_eq!(fs, "poolnothost:alsopool");
    let Fs {
        host,
        fs,
        role: _,
        origin: _,
    } = Fs::new(
        Some(""),
        "poolnothost:alsopool/filesystem:alsofs",
        Role::Source,
    );
    assert_eq!(host, None);
    assert_eq!(fs, "poolnothost:alsopool/filesystem:alsofs");
}

#[test]
fn fs_nonempty_user_hosts_pool_fs_colon() {
    let Fs {
        host,
        fs,
        role: _,
        origin: _,
    } = Fs::new(Some("user@host"), "poolnothost:alsopool", Role::Source);
    assert_eq!(host, Some("user@host"));
    assert_eq!(fs, "poolnothost:alsopool");
    let Fs {
        host,
        fs,
        role: _,
        origin: _,
    } = Fs::new(
        Some("user@host"),
        "poolnothost:alsopool/filesystem:alsofs",
        Role::Source,
    );
    assert_eq!(host, Some("user@host"));
    assert_eq!(fs, "poolnothost:alsopool/filesystem:alsofs");
    let Fs {
        host,
        fs,
        role: _,
        origin: _,
    } = Fs::new(
        Some("user:wierduser@host:wierdhost"),
        "poolnothost:alsopool/filesystem:alsofs",
        Role::Source,
    );
    assert_eq!(host, Some("user:wierduser@host:wierdhost"));
    assert_eq!(fs, "poolnothost:alsopool/filesystem:alsofs");
}
