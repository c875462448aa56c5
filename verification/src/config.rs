//! The configuration model of the service.
//!
//! The shape follows the shared configuration file of the fleet: the hub,
//! the partitioning scheme, and the per-component sections.  Lengths that
//! the file states in kilometres are carried here as whole metres.

use vstd::prelude::*;

use crate::types::GpsCoordinates;

verus! {

/// The verbosity of a component's log.
#[derive(Clone, Copy, PartialEq, Eq, Structural, Debug)]
pub enum LogLevel {
    Info,
    Warn,
    Debug,
    Trace,
    Error,
}

/// Whether and how verbosely a component logs.
#[derive(Clone, Copy, PartialEq, Eq, Structural, Debug)]
pub struct LoggingConfig {
    pub enabled: bool,
    pub level: LogLevel,
}

/// The bus endpoints offered over the plain protocol.
pub struct NatsServers {
    pub servers: Vec<String>,
}

/// The bus endpoints offered over websockets.
pub struct WebsocketServers {
    pub servers: Vec<String>,
}

/// The two endpoint families of the bus.
pub struct NatsProtocols {
    pub nats: NatsServers,
    pub websockets: WebsocketServers,
}

/// The message hub the fleet talks over.
#[allow(non_snake_case)]
pub enum HubConfig {
    NatsHubConfig { enableProtoBuf: bool, protocols: NatsProtocols },
    AzureServiceBusHubConfig { enableProtoBuf: bool, connectionString: String },
    RabbitHubConfig { enableProtoBuf: bool },
}

/// The store that keeps events while they are collected.
pub enum EventStoreConfig {
    NoopEventStoreConfig,
    InMemoryEventStoreConfig,
    DuckDbEventStoreConfig,
}

/// How events are spread over data partitions.
#[allow(non_snake_case)]
pub enum DataPartitionStrategyConfig {
    GeohashDataPartitionStrategyConfig { hashLength: u8 },
    IdDataPartitionStrategyConfig,
    IdGroupDataPartitionStrategyConfig { groupSize: u32 },
    CollectorIndexDataPartitionStrategyConfig,
}

/// How events are spread over time partitions.
#[allow(non_snake_case)]
#[derive(Clone, Copy, PartialEq, Eq, Structural, Debug)]
pub struct TimePartitioningConfig {
    pub aggregationPeriodInMin: u32,
    pub maxCapacity: u32,
    pub maxActivePartitions: u32,
}

/// The partitioning scheme of the corpus.
#[allow(non_snake_case)]
pub struct PartitioningConfig {
    pub timePartition: TimePartitioningConfig,
    pub dataPartition: DataPartitionStrategyConfig,
}

/// The back-pressure thresholds of the collector.
#[allow(non_snake_case)]
#[derive(Clone, Copy, PartialEq, Eq, Structural, Debug)]
pub struct BackpressureConfig {
    pub enabled: bool,
    pub notificationThreshold: u32,
    pub notificationPeriodInMS: u32,
    pub waitTimeoutInMS: u32,
    pub waitThreshold: u32,
}

/// Deliberate delays for resilience testing.
#[allow(non_snake_case)]
#[derive(Clone, Copy, PartialEq, Eq, Structural, Debug)]
pub struct ChaosEngineeringConfig {
    pub enabled: bool,
    pub messageReadDelayInMS: u32,
    pub messageWriteDelayInMS: u32,
}

/// The map sheet the generator draws vehicles on, in whole metres.
#[allow(non_snake_case)]
#[derive(Clone, Copy, PartialEq, Eq, Structural, Debug)]
pub struct MapConfig {
    pub topLeftOrigin: GpsCoordinates,
    pub widthInM: u64,
    pub heightInM: u64,
}

/// The size of one generation zone, in whole metres.
#[allow(non_snake_case)]
#[derive(Clone, Copy, PartialEq, Eq, Structural, Debug)]
pub struct ZoneSize {
    pub widthInM: u64,
    pub heightInM: u64,
}

/// The generator component's section.
#[allow(non_snake_case)]
pub struct GeneratorConfig {
    pub logging: LoggingConfig,
    pub instances: u32,
    pub httpPort: u16,
    pub vehicleCount: u32,
    pub vehicleTypes: Vec<String>,
    pub maxNumberOfEvents: u64,
    pub messageChunkSize: u32,
    pub refreshIntervalInSecs: u32,
    pub realtime: bool,
    pub sendFlush: bool,
    pub startDate: Option<String>,
    pub map: MapConfig,
    pub zoneSize: ZoneSize,
}

/// Where the collector writes the corpus.
#[allow(non_snake_case)]
pub enum StorageConfig {
    FileStorageConfig { folder: String },
    NoOpStorageConfig,
    S3StorageConfig,
    AzureBlobStorageConfig {
        accountName: String,
        connectionString: Option<String>,
        containerName: String,
    },
}

/// The output shape of the collector: formats, layout and storage.
#[allow(non_snake_case)]
pub struct OutputConfig {
    pub overwriteExistingFiles: bool,
    pub flatLayout: bool,
    pub formats: Vec<String>,
    pub storage: StorageConfig,
}

/// One concrete event dispatcher.
#[allow(non_snake_case)]
pub enum ConcreteEventDispatcherConfig {
    MessageBusEventDispatcherConfig,
    AzureEventHubEventDispatcherConfig {
        connectionString: String,
        sendDelayInMS: u32,
        sendParallelism: u32,
    },
}

/// A dispatcher, possibly a proxy over several concrete ones.
pub enum EventDispatcherConfig {
    ProxyEventDispatcherConfig { dispatchers: Vec<ConcreteEventDispatcherConfig> },
    Concrete(ConcreteEventDispatcherConfig),
}

/// The collector component's section.
#[allow(non_snake_case)]
pub struct CollectorConfig {
    pub logging: LoggingConfig,
    pub instances: u32,
    pub httpPort: u16,
    pub geohashLength: u8,
    pub eventStore: EventStoreConfig,
    pub eventDispatcher: EventDispatcherConfig,
    pub output: OutputConfig,
}

/// Options of a SQL connection.
pub struct FinderAzureSqlConnectionOptions {
    pub encrypt: bool,
}

/// A SQL connection of the finder, with its authentication kept as raw
/// text.
pub struct FinderAzureSqlConnection {
    pub server: String,
    pub database: Option<String>,
    pub authentication: String,
    pub options: FinderAzureSqlConnectionOptions,
}

/// Where the finder reads from.
pub enum FinderDataSourceConfig {
    FinderFileDataSourceConfig,
    FinderAzureSqlDataSourceConfig { connection: FinderAzureSqlConnection },
}

/// The finder component's section.
#[allow(non_snake_case)]
pub struct FinderConfig {
    pub logging: LoggingConfig,
    pub runtime: String,
    pub instances: u32,
    pub httpPort: u16,
    pub defaultTimeoutInMS: u128,
    pub dataFormat: String,
    pub parallelSearch: bool,
    pub useChunking: bool,
    pub messageChunkSize: u32,
    pub dataSource: FinderDataSourceConfig,
}

/// The viewer component's section.
pub struct ViewerConfig {
    pub logging: LoggingConfig,
}

/// The whole configuration file.
#[allow(non_snake_case)]
pub struct Config {
    pub hub: HubConfig,
    pub partitioning: PartitioningConfig,
    pub backpressure: BackpressureConfig,
    pub chaosEngineering: ChaosEngineeringConfig,
    pub generator: GeneratorConfig,
    pub collector: CollectorConfig,
    pub finder: FinderConfig,
    pub viewer: ViewerConfig,
}

/// Declares the `log` crate's `LevelFilter` so that the level mapping
/// below can hand it out; the library looks inside no value of it.
#[verifier::external_type_specification]
#[verifier::external_body]
pub struct ExLevelFilter(log::LevelFilter);

/// Relies on the `log` crate's `LevelFilter::Error` constant.
#[verifier::external_body]
fn level_filter_error() -> log::LevelFilter {
    log::LevelFilter::Error
}

/// Relies on the `log` crate's `LevelFilter::Warn` constant.
#[verifier::external_body]
fn level_filter_warn() -> log::LevelFilter {
    log::LevelFilter::Warn
}

/// Relies on the `log` crate's `LevelFilter::Info` constant.
#[verifier::external_body]
fn level_filter_info() -> log::LevelFilter {
    log::LevelFilter::Info
}

/// Relies on the `log` crate's `LevelFilter::Debug` constant.
#[verifier::external_body]
fn level_filter_debug() -> log::LevelFilter {
    log::LevelFilter::Debug
}

/// Relies on the `log` crate's `LevelFilter::Trace` constant.
#[verifier::external_body]
fn level_filter_trace() -> log::LevelFilter {
    log::LevelFilter::Trace
}

/// The log filter that a configured level stands for.
pub fn str_to_log_level(value: &LogLevel) -> log::LevelFilter {
    match value {
        LogLevel::Debug => level_filter_debug(),
        LogLevel::Error => level_filter_error(),
        LogLevel::Info => level_filter_info(),
        LogLevel::Trace => level_filter_trace(),
        LogLevel::Warn => level_filter_warn(),
    }
}

} // verus!
