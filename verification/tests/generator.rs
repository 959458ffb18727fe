use adaptive_engine::source::generator_source::GeneratorConfig;
use std::time::Duration;

#[test]
fn test_generator_config_creation() {
    let config = GeneratorConfig::new(Duration::from_millis(100));
    assert_eq!(config.emit_interval, Duration::from_millis(100));
    assert_eq!(config.max_buffers, None);
}

#[test]
fn test_generator_config_with_max() {
    let config = GeneratorConfig::new(Duration::from_millis(100)).with_max_buffers(10);
    assert_eq!(config.max_buffers, Some(10));
}

#[test]
fn with_max_keeps_the_interval() {
    let config = GeneratorConfig::new(Duration::from_millis(7)).with_max_buffers(3);
    assert_eq!(config.emit_interval, Duration::from_millis(7));
    assert_eq!(config.max_buffers, Some(3));
}
