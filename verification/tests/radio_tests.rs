use lokan_hub::radio::{
    validate_thread_channel, validate_thread_dataset, validate_wifi_channel, validate_wifi_config,
    RadioError, RadioMapSnapshot, ThreadChannelRequest, ThreadDatasetRequest, WifiChannelRequest,
    WifiConfigRequest, WifiSecurity,
};

fn dataset() -> ThreadDatasetRequest {
    ThreadDatasetRequest {
        dataset_id: "0123456789abcdef0123456789abcdef".to_string(),
        network_name: "home-net".to_string(),
        channel: 15,
        pan_id: "1a2b".to_string(),
        xpan_id: Some("0123456789abcdef".to_string()),
        master_key: None,
        pskc: None,
    }
}

#[test]
fn thread_dataset_validation() {
    assert!(validate_thread_dataset(&dataset()).is_ok());

    let mut short_id = dataset();
    short_id.dataset_id = "abcd".to_string();
    assert!(matches!(validate_thread_dataset(&short_id), Err(RadioError::Validation(_))));

    let mut bad_channel = dataset();
    bad_channel.channel = 27;
    assert!(matches!(validate_thread_dataset(&bad_channel), Err(RadioError::Validation(_))));

    let mut bad_pan = dataset();
    bad_pan.pan_id = "zzzz".to_string();
    assert!(matches!(validate_thread_dataset(&bad_pan), Err(RadioError::Validation(_))));

    let mut bad_name = dataset();
    bad_name.network_name = "name-way-too-long-for-thread".to_string();
    assert!(matches!(validate_thread_dataset(&bad_name), Err(RadioError::Validation(_))));
}

#[test]
fn thread_channel_validation() {
    assert!(validate_thread_channel(&ThreadChannelRequest { channel: 11, dataset_id: None }).is_ok());
    assert!(validate_thread_channel(&ThreadChannelRequest { channel: 26, dataset_id: None }).is_ok());
    assert!(matches!(
        validate_thread_channel(&ThreadChannelRequest { channel: 10, dataset_id: None }),
        Err(RadioError::Validation(_))
    ));
}

fn wifi() -> WifiConfigRequest {
    WifiConfigRequest {
        ssid: "home".to_string(),
        passphrase: Some("hunter2hunter2".to_string()),
        security: WifiSecurity::Wpa2,
        band: Some("5GHz".to_string()),
        channel: Some(36),
    }
}

#[test]
fn wifi_config_validation() {
    assert!(validate_wifi_config(&wifi()).is_ok());

    let mut missing_pass = wifi();
    missing_pass.passphrase = None;
    assert!(matches!(validate_wifi_config(&missing_pass), Err(RadioError::Validation(_))));

    let mut short_pass = wifi();
    short_pass.passphrase = Some("short".to_string());
    assert!(matches!(validate_wifi_config(&short_pass), Err(RadioError::Validation(_))));

    let mut open = wifi();
    open.security = WifiSecurity::Open;
    open.passphrase = None;
    assert!(validate_wifi_config(&open).is_ok());

    let mut bad_band = wifi();
    bad_band.band = Some("7ghz".to_string());
    assert!(matches!(validate_wifi_config(&bad_band), Err(RadioError::Validation(_))));

    let mut bad_channel = wifi();
    bad_channel.channel = Some(200);
    assert!(matches!(validate_wifi_config(&bad_channel), Err(RadioError::Validation(_))));
}

#[test]
fn wifi_channel_validation() {
    assert!(validate_wifi_channel(&WifiChannelRequest { channel: 1, band: None }).is_ok());
    assert!(validate_wifi_channel(&WifiChannelRequest { channel: 165, band: Some("dual".to_string()) }).is_ok());
    assert!(matches!(
        validate_wifi_channel(&WifiChannelRequest { channel: 0, band: None }),
        Err(RadioError::Validation(_))
    ));
}

#[test]
fn radio_map_last_writer_wins() {
    let mut map = RadioMapSnapshot::default();
    map.update_thread_dataset(&dataset(), "2024-01-01T00:00:00Z");
    let first = map.thread_dataset.clone().expect("dataset stored");
    assert_eq!(first.channel, 15);
    assert_eq!(map.thread_channel.as_ref().unwrap().channel, 15);

    map.update_thread_channel(
        &ThreadChannelRequest { channel: 20, dataset_id: None },
        "2024-01-01T00:00:01Z",
    );
    // The stored dataset follows the new channel; the newest write wins.
    assert_eq!(map.thread_dataset.as_ref().unwrap().channel, 20);
    assert_eq!(map.thread_channel.as_ref().unwrap().channel, 20);
    assert_eq!(map.thread_channel.as_ref().unwrap().updated_at, "2024-01-01T00:00:01Z");

    map.update_wifi_config(&wifi(), "2024-01-01T00:00:02Z");
    assert_eq!(map.wifi_config.as_ref().unwrap().security, "wpa2");
    assert_eq!(map.wifi_channel.as_ref().unwrap().channel, 36);

    map.update_wifi_channel(
        &WifiChannelRequest { channel: 44, band: None },
        "2024-01-01T00:00:03Z",
    );
    assert_eq!(map.wifi_channel.as_ref().unwrap().channel, 44);
}
