use tranquil_metastore::config::{
    total_ram_bytes, MetastoreConfig, DEFAULT_RAM_BYTES, MAX_CACHE_BYTES,
};

#[test]
fn default_config_has_reasonable_cache_size() {
    let reports = [
        None,
        Some("MemTotal:        2014764 kB\nMemFree:          102400 kB\n"),
        Some("MemTotal:      527892192 kB\nMemFree:        1024000 kB\n"),
    ];
    for report in reports {
        let config = MetastoreConfig::for_meminfo(report);
        assert!(config.cache_size_bytes > 0);
        assert!(config.cache_size_bytes <= 4 * 1024 * 1024 * 1024);
    }
}

#[test]
fn cache_takes_a_share_of_the_memory() {
    let gib = 1024 * 1024 * 1024u64;
    assert_eq!(
        MetastoreConfig::for_total_ram(4 * gib).cache_size_bytes,
        858_993_459
    );
    assert_eq!(MetastoreConfig::for_total_ram(10 * gib).cache_size_bytes, 2 * gib);
    assert_eq!(
        MetastoreConfig::for_total_ram(1024 * gib).cache_size_bytes,
        MAX_CACHE_BYTES
    );
    assert_eq!(MAX_CACHE_BYTES, 4 * gib);
}

#[test]
fn memory_report_is_read() {
    let report = "MemFree: 1 kB\nMemTotal:       16384 kB\nCached: 2 kB\n";
    assert_eq!(total_ram_bytes(report), 16384 * 1024);
    assert_eq!(total_ram_bytes("nothing here"), DEFAULT_RAM_BYTES);
    assert_eq!(
        MetastoreConfig::for_meminfo(Some(report)),
        MetastoreConfig::for_total_ram(16384 * 1024)
    );
    assert_eq!(
        MetastoreConfig::for_meminfo(None),
        MetastoreConfig::for_total_ram(DEFAULT_RAM_BYTES)
    );
}
