use event_finder::config::{CollectorConfig, Config, EventDispatcherConfig,
    ConcreteEventDispatcherConfig, BackpressureConfig, ChaosEngineeringConfig,
    DataPartitionStrategyConfig, EventStoreConfig, FinderConfig, FinderDataSourceConfig,
    GeneratorConfig, HubConfig, LogLevel, LoggingConfig, MapConfig, NatsProtocols, NatsServers,
    OutputConfig, PartitioningConfig, StorageConfig, TimePartitioningConfig, ViewerConfig,
    WebsocketServers, ZoneSize, str_to_log_level};
use event_finder::store::{StorePlan, build_data_folder_path, build_object_store,
    create_session_context, get_instance_index, get_nats_servers, kv_lookup,
    parse_key_value_string};
use event_finder::types::{GpsCoordinates, QueryError, QueryErrorKind, to_string_error};

fn logging() -> LoggingConfig {
    LoggingConfig { enabled: true, level: LogLevel::Info }
}

fn test_config(storage: StorageConfig, flat: bool, formats: Vec<&str>) -> Config {
    Config {
        hub: HubConfig::NatsHubConfig {
            enableProtoBuf: true,
            protocols: NatsProtocols {
                nats: NatsServers { servers: vec!["nats://localhost:4222".to_string()] },
                websockets: WebsocketServers { servers: vec![] },
            },
        },
        partitioning: PartitioningConfig {
            timePartition: TimePartitioningConfig {
                aggregationPeriodInMin: 10,
                maxCapacity: 100,
                maxActivePartitions: 4,
            },
            dataPartition: DataPartitionStrategyConfig::GeohashDataPartitionStrategyConfig {
                hashLength: 5,
            },
        },
        backpressure: BackpressureConfig {
            enabled: false,
            notificationThreshold: 0,
            notificationPeriodInMS: 0,
            waitTimeoutInMS: 0,
            waitThreshold: 0,
        },
        chaosEngineering: ChaosEngineeringConfig {
            enabled: false,
            messageReadDelayInMS: 0,
            messageWriteDelayInMS: 0,
        },
        generator: GeneratorConfig {
            logging: logging(),
            instances: 1,
            httpPort: 8080,
            vehicleCount: 10,
            vehicleTypes: vec!["Mini_van".to_string()],
            maxNumberOfEvents: 1000,
            messageChunkSize: 10,
            refreshIntervalInSecs: 1,
            realtime: false,
            sendFlush: false,
            startDate: None,
            map: MapConfig {
                topLeftOrigin: GpsCoordinates {
                    lat_micro: 48_900_000,
                    lon_micro: 2_300_000,
                    alt_micro: 0,
                },
                widthInM: 10_000,
                heightInM: 10_000,
            },
            zoneSize: ZoneSize { widthInM: 1_000, heightInM: 1_000 },
        },
        collector: CollectorConfig {
            logging: logging(),
            instances: 1,
            httpPort: 8081,
            geohashLength: 5,
            eventStore: EventStoreConfig::InMemoryEventStoreConfig,
            eventDispatcher: EventDispatcherConfig::Concrete(
                ConcreteEventDispatcherConfig::MessageBusEventDispatcherConfig,
            ),
            output: OutputConfig {
                overwriteExistingFiles: false,
                flatLayout: flat,
                formats: formats.into_iter().map(|s| s.to_string()).collect(),
                storage,
            },
        },
        finder: FinderConfig {
            logging: logging(),
            runtime: "rust".to_string(),
            instances: 1,
            httpPort: 8082,
            defaultTimeoutInMS: 30_000,
            dataFormat: "parquet".to_string(),
            parallelSearch: false,
            useChunking: false,
            messageChunkSize: 10,
            dataSource: FinderDataSourceConfig::FinderFileDataSourceConfig,
        },
        viewer: ViewerConfig { logging: logging() },
    }
}

#[test]
fn key_value_strings_parse_into_trimmed_pairs() {
    let pairs = parse_key_value_string("a=1; b = 2 ;;c=3").unwrap();
    assert_eq!(pairs.len(), 3);
    assert_eq!(pairs[0], ("a".to_string(), "1".to_string()));
    assert_eq!(pairs[1], ("b".to_string(), "2".to_string()));
    assert_eq!(pairs[2], ("c".to_string(), "3".to_string()));
}

#[test]
fn a_pair_without_equals_is_an_invalid_configuration() {
    let err: QueryError = parse_key_value_string("a=1;nonsense").unwrap_err();
    assert!(matches!(err.kind, QueryErrorKind::InvalidConfig));
    assert!(!to_string_error(&err).is_empty());
}

#[test]
fn later_duplicate_keys_win() {
    let pairs = parse_key_value_string("k=1;k=2").unwrap();
    assert_eq!(kv_lookup(&pairs, "k").as_deref(), Some("2"));
    assert_eq!(kv_lookup(&pairs, "missing"), None);
}

#[test]
fn the_flat_layout_is_refused() {
    let cfg = test_config(
        StorageConfig::FileStorageConfig { folder: "/data".to_string() },
        true,
        vec!["parquet"],
    );
    let err = build_object_store(&cfg, &None, "/cwd", &None).unwrap_err();
    assert!(matches!(err.kind, QueryErrorKind::InvalidConfig));
}

#[test]
fn a_local_store_resolves_its_folder() {
    let cfg = test_config(
        StorageConfig::FileStorageConfig { folder: "data".to_string() },
        false,
        vec!["parquet"],
    );
    let (format, plan) = build_object_store(&cfg, &None, "/srv", &None).unwrap();
    assert_eq!(format, "parquet");
    match plan {
        StorePlan::LocalDirectory { folder, joined_cwd } => {
            assert_eq!(folder, "/srv/data");
            assert!(joined_cwd);
        },
        _ => panic!("expected a local directory plan"),
    }

    let (_, plan2) = build_object_store(&cfg, &Some("/override".to_string()), "/srv", &None)
        .unwrap();
    match plan2 {
        StorePlan::LocalDirectory { folder, joined_cwd } => {
            assert_eq!(folder, "/override");
            assert!(!joined_cwd);
        },
        _ => panic!("expected a local directory plan"),
    }
}

#[test]
fn an_azure_store_needs_a_signature_in_the_connection_string() {
    let cfg = test_config(
        StorageConfig::AzureBlobStorageConfig {
            accountName: "acct".to_string(),
            connectionString: Some("AccountName=acct;SharedAccessSignature=sv=sig".to_string()),
            containerName: "events".to_string(),
        },
        false,
        vec![],
    );
    let (format, plan) = build_object_store(&cfg, &None, "/srv", &None).unwrap();
    assert_eq!(format, "parquet");
    match plan {
        StorePlan::AzureBlobContainer { account, container, sas_token } => {
            assert_eq!(account, "acct");
            assert_eq!(container, "events");
            assert_eq!(sas_token, "sv=sig");
        },
        _ => panic!("expected a blob container plan"),
    }

    let cfg2 = test_config(
        StorageConfig::AzureBlobStorageConfig {
            accountName: "acct".to_string(),
            connectionString: Some("AccountName=acct".to_string()),
            containerName: "events".to_string(),
        },
        false,
        vec![],
    );
    assert!(build_object_store(&cfg2, &None, "/srv", &None).is_err());
}

#[test]
fn the_environment_connection_string_wins() {
    let cfg = test_config(
        StorageConfig::AzureBlobStorageConfig {
            accountName: "acct".to_string(),
            connectionString: None,
            containerName: "events".to_string(),
        },
        false,
        vec![],
    );
    assert!(build_object_store(&cfg, &None, "/srv", &None).is_err());
    let env = Some("SharedAccessSignature=tok".to_string());
    let (_, plan) = build_object_store(&cfg, &None, "/srv", &env).unwrap();
    match plan {
        StorePlan::AzureBlobContainer { sas_token, .. } => assert_eq!(sas_token, "tok"),
        _ => panic!("expected a blob container plan"),
    }
}

#[test]
fn the_session_lists_the_corpus_with_its_partition_columns() {
    let cfg = test_config(
        StorageConfig::FileStorageConfig { folder: "/data".to_string() },
        false,
        vec!["parquet"],
    );
    let spec = create_session_context(&cfg, &None, "/srv", &None).unwrap();
    assert_eq!(spec.url_prefix, "events:///");
    assert_eq!(spec.table_name, "events");
    assert_eq!(spec.format, "parquet");
    assert_eq!(spec.file_extension, ".parquet");
    assert_eq!(spec.partition_columns, vec!["y", "m", "d", "hh", "mm", "start", "int", "pk"]);
}

#[test]
fn an_unknown_format_is_refused() {
    let cfg = test_config(
        StorageConfig::FileStorageConfig { folder: "/data".to_string() },
        false,
        vec!["orc"],
    );
    let err = create_session_context(&cfg, &None, "/srv", &None).unwrap_err();
    assert!(matches!(err.kind, QueryErrorKind::InvalidConfig));
}

#[test]
fn nats_servers_come_from_the_environment_or_the_hub() {
    let cfg = test_config(
        StorageConfig::FileStorageConfig { folder: "/data".to_string() },
        false,
        vec![],
    );
    let from_cfg = get_nats_servers(&cfg.hub, &None).unwrap();
    assert_eq!(from_cfg, vec!["nats://localhost:4222"]);
    let from_env = get_nats_servers(&cfg.hub, &Some("a:1,b:2".to_string())).unwrap();
    assert_eq!(from_env, vec!["a:1", "b:2"]);
    let rabbit = HubConfig::RabbitHubConfig { enableProtoBuf: false };
    assert!(get_nats_servers(&rabbit, &None).is_err());
}

#[test]
fn the_instance_index_prefers_the_explicit_setting() {
    assert_eq!(get_instance_index(&Some("7".to_string()), &Some("host-3".to_string())), 7);
    assert_eq!(get_instance_index(&Some("x".to_string()), &Some("host-3".to_string())), 3);
    assert_eq!(get_instance_index(&None, &Some("host-12".to_string())), 12);
    assert_eq!(get_instance_index(&None, &Some("host".to_string())), 0);
    assert_eq!(get_instance_index(&None, &Some("host-".to_string())), 0);
    assert_eq!(get_instance_index(&None, &None), 0);
}

#[test]
fn data_folder_resolution_prefers_the_environment() {
    let (path, joined) =
        build_data_folder_path(&"data".to_string(), &Some("/env/data".to_string()), "/srv");
    assert_eq!(path, "/env/data");
    assert!(!joined);
    let (p2, j2) = build_data_folder_path(&"/abs".to_string(), &None, "/srv");
    assert_eq!(p2, "/abs");
    assert!(!j2);
    let (p3, j3) = build_data_folder_path(&"rel".to_string(), &None, "/srv");
    assert_eq!(p3, "/srv/rel");
    assert!(j3);
}

#[test]
fn log_levels_map_to_their_filters() {
    assert_eq!(str_to_log_level(&LogLevel::Debug), log::LevelFilter::Debug);
    assert_eq!(str_to_log_level(&LogLevel::Error), log::LevelFilter::Error);
    assert_eq!(str_to_log_level(&LogLevel::Info), log::LevelFilter::Info);
    assert_eq!(str_to_log_level(&LogLevel::Trace), log::LevelFilter::Trace);
    assert_eq!(str_to_log_level(&LogLevel::Warn), log::LevelFilter::Warn);
}

#[test]
fn a_generation_event_rebuilds_the_session_from_the_configuration() {
    let cfg = test_config(
        StorageConfig::FileStorageConfig { folder: "/data".to_string() },
        false,
        vec!["parquet"],
    );
    let spec = event_finder::dispatch::process_generation_requests(&cfg, &None, "/srv", &None)
        .unwrap();
    assert_eq!(spec.table_name, "events");
    assert_eq!(spec.file_extension, ".parquet");
}
