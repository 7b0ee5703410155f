use streaming_data_loader::daemon_api::{
    authorize_stream, connection_to_ping, endpoint_is_current, read_connection_info, socket_addr_text,
    ConnectionReadError, DaemonConnectionInfo, EndpointRead, PersistedDaemonEndpoint,
};
use streaming_data_loader::pipeline::changed_watched_paths;
use streaming_data_loader::service_paths::{
    default_shared_service_config_dir, resolve_shared_service_config_dir, service_config_dir, TargetPlatform,
};

#[test]
fn burst_writes_collapse_into_single_event() {
    let watched = vec!["/data/site.csv".to_string()];
    let events: Vec<(bool, String)> = (0..10).map(|_| (true, "/data/site.csv".to_string())).collect();
    assert_eq!(changed_watched_paths(&events, &watched), vec!["/data/site.csv".to_string()]);
}

#[test]
fn unwatched_files_are_ignored() {
    let watched = vec!["/data/watched.csv".to_string()];
    let events = vec![(true, "/data/unwatched.csv".to_string()), (false, "/data/watched.csv".to_string())];
    assert!(changed_watched_paths(&events, &watched).is_empty());
}

#[test]
fn config_dirs_follow_overrides_then_platform_defaults() {
    assert_eq!(service_config_dir(Some("/srv/sdl".to_string()), TargetPlatform::Linux), Ok("/srv/sdl".to_string()));
    assert_eq!(
        service_config_dir(Some(String::new()), TargetPlatform::Linux),
        Err("SDL_CONFIG_DIR is set but empty.".to_string())
    );
    assert_eq!(service_config_dir(None, TargetPlatform::Linux), Ok("/var/lib/hydroserver-sdl".to_string()));
    assert_eq!(
        service_config_dir(None, TargetPlatform::Windows),
        Ok("C:\\ProgramData\\HydroServerSDL".to_string())
    );

    assert_eq!(
        default_shared_service_config_dir(TargetPlatform::MacOs, None, None, None, false, '/'),
        Ok("/Users/Shared/Streaming Data Loader".to_string())
    );
    assert_eq!(
        default_shared_service_config_dir(TargetPlatform::Windows, None, None, None, true, '\\'),
        Ok("C:\\ProgramData\\Streaming Data Loader Dev".to_string())
    );
    assert_eq!(
        default_shared_service_config_dir(TargetPlatform::Linux, None, None, Some("/home/u".to_string()), false, '/'),
        Ok("/home/u/Streaming Data Loader".to_string())
    );
    assert_eq!(
        default_shared_service_config_dir(TargetPlatform::Linux, None, None, None, false, '/'),
        Err("Couldn't resolve an application data directory.".to_string())
    );
    assert_eq!(
        resolve_shared_service_config_dir(Some("/a".to_string()), Some("/b".to_string()), Ok("/c".to_string())),
        Ok("/a".to_string())
    );
    assert_eq!(resolve_shared_service_config_dir(None, Some("/b".to_string()), Ok("/c".to_string())), Ok("/b".to_string()));
    assert_eq!(resolve_shared_service_config_dir(None, None, Err("x".to_string())), Err("x".to_string()));
}

#[test]
fn endpoint_files_are_read_and_removed_carefully() {
    let endpoint = PersistedDaemonEndpoint {
        base_url: "http://127.0.0.1:4000".to_string(),
        token: "abc".to_string(),
        pid: 7,
    };
    let info = read_connection_info("/cfg/daemon.endpoint.json", EndpointRead::Read(Some(endpoint.clone())));
    assert_eq!(
        info,
        Ok(DaemonConnectionInfo { base_url: "http://127.0.0.1:4000".to_string(), token: "abc".to_string() })
    );
    assert_eq!(read_connection_info("/cfg/e.json", EndpointRead::Missing), Err(ConnectionReadError::MissingEndpoint));
    assert_eq!(read_connection_info("/cfg/e.json", EndpointRead::Read(None)), Err(ConnectionReadError::Incomplete));
    assert_eq!(
        read_connection_info("/cfg/e.json", EndpointRead::Failed("denied".to_string())),
        Err(ConnectionReadError::Fatal("Couldn't read the daemon endpoint file at /cfg/e.json: denied".to_string()))
    );
    assert_eq!(connection_to_ping(Err(ConnectionReadError::Incomplete)), Ok(None));
    assert_eq!(connection_to_ping(Err(ConnectionReadError::Fatal("x".to_string()))), Err("x".to_string()));

    assert!(endpoint_is_current(Some(&endpoint), "abc"));
    assert!(!endpoint_is_current(Some(&endpoint), "other"));
    assert!(!endpoint_is_current(None, "abc"));

    assert_eq!(socket_addr_text("127.0.0.1", false, 4000), "127.0.0.1:4000");
    assert_eq!(socket_addr_text("::1", true, 80), "[::1]:80");
    assert_eq!(authorize_stream("abc", "abc"), None);
    assert_eq!(authorize_stream("nope", "abc"), Some((401, "Invalid access token.".to_string())));
}

#[test]
fn a_published_endpoint_reads_back_as_the_connection() {
    let endpoint = streaming_data_loader::daemon_api::published_endpoint("127.0.0.1", false, 4321, "abc", 99);
    assert_eq!(endpoint.base_url, "http://127.0.0.1:4321");
    assert_eq!(endpoint.pid, 99);
    assert_eq!(
        read_connection_info("/cfg/daemon.endpoint.json", EndpointRead::Read(Some(endpoint))),
        Ok(DaemonConnectionInfo { base_url: "http://127.0.0.1:4321".to_string(), token: "abc".to_string() })
    );
}
