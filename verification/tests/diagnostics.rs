use animation_engine::camera::DepthCalculation;
use animation_engine::diagnostics::{DiagnosticId, LogDiagnosticsConfig, LogDiagnosticsPlugin};

const FPS: DiagnosticId = DiagnosticId(1);
const FRAME_TIME: DiagnosticId = DiagnosticId(2);
const ENTITIES: DiagnosticId = DiagnosticId(3);

fn logged(config: &LogDiagnosticsConfig) -> Vec<DiagnosticId> {
    config.logged(&vec![FPS, FRAME_TIME, ENTITIES])
}

#[test]
fn new_config_logs_everything() {
    let config = LogDiagnosticsConfig::new();
    assert_eq!(logged(&config), vec![FPS, FRAME_TIME, ENTITIES]);
    assert!(config.is_logged(DiagnosticId(u128::MAX)));
    let config = LogDiagnosticsConfig::default();
    assert_eq!(logged(&config), vec![FPS, FRAME_TIME, ENTITIES]);
}

#[test]
fn disabled_config_logs_nothing() {
    let mut config = LogDiagnosticsConfig::new();
    config.disabled();
    assert_eq!(logged(&config), vec![]);
    config.enable();
    assert_eq!(logged(&config), vec![FPS, FRAME_TIME, ENTITIES]);
    config.disable();
    assert!(!config.is_logged(FPS));
    config.toggle();
    assert!(config.is_logged(FPS));
    config.toggle();
    assert!(!config.is_logged(FPS));
}

#[test]
fn displaying_narrows_to_what_is_named() {
    let mut config = LogDiagnosticsConfig::new();
    config.displaying(FPS).displaying(ENTITIES);
    assert_eq!(logged(&config), vec![FPS, ENTITIES]);
    config.hiding(FPS);
    assert_eq!(logged(&config), vec![ENTITIES]);
    config.hide_diagnostic(ENTITIES);
    assert_eq!(logged(&config), vec![]);
    config.display(FRAME_TIME);
    assert_eq!(logged(&config), vec![FRAME_TIME]);
    // the filter is kept while the logging is off
    config.disabled().displaying(FPS);
    assert_eq!(logged(&config), vec![]);
    config.enable();
    assert_eq!(logged(&config), vec![FPS, FRAME_TIME]);
}

#[test]
fn hiding_holds_back_what_is_named() {
    let mut config = LogDiagnosticsConfig::new();
    config.hiding(FRAME_TIME);
    assert_eq!(logged(&config), vec![FPS, ENTITIES]);
    config.hiding(FPS);
    assert_eq!(logged(&config), vec![ENTITIES]);
    config.displaying(FRAME_TIME);
    assert_eq!(logged(&config), vec![FRAME_TIME, ENTITIES]);
    config.display(FPS);
    assert_eq!(logged(&config), vec![FPS, FRAME_TIME, ENTITIES]);
    config.hide_diagnostic(ENTITIES);
    assert_eq!(logged(&config), vec![FPS, FRAME_TIME]);
}

#[test]
fn display_and_hide_leave_an_open_filter_open() {
    let mut config = LogDiagnosticsConfig::new();
    config.display(FPS);
    assert_eq!(logged(&config), vec![FPS, FRAME_TIME, ENTITIES]);
    config.hide_diagnostic(FPS);
    assert_eq!(logged(&config), vec![FPS, FRAME_TIME, ENTITIES]);
}

#[test]
fn only_and_clear() {
    let mut config = LogDiagnosticsConfig::new();
    config.display_only(FRAME_TIME);
    assert_eq!(logged(&config), vec![FRAME_TIME]);
    config.hide_only(FRAME_TIME);
    assert_eq!(logged(&config), vec![FPS, ENTITIES]);
    config.display_only(ENTITIES);
    assert_eq!(logged(&config), vec![ENTITIES]);
    config.clear_filter();
    assert_eq!(logged(&config), vec![FPS, FRAME_TIME, ENTITIES]);
    config.disable();
    config.display_only(FPS);
    assert_eq!(logged(&config), vec![]);
}

#[test]
fn plugin_defaults() {
    let plugin = LogDiagnosticsPlugin::default();
    assert!(!plugin.debug);
    assert_eq!(plugin.wait_duration, 1_000_000);
    assert_eq!(DepthCalculation::default(), DepthCalculation::Distance);
}

#[test]
fn log_line_is_laid_out_in_columns() {
    let line = LogDiagnosticsPlugin::log_diagnostic("fps", "", "60.000000", Some("59.500000"));
    assert_eq!(
        line,
        format!(
            "{:<name_width$}: {:>12} (avg {:>})",
            "fps",
            format!("{}{:1}", "60.000000", ""),
            format!("{}{:}", "59.500000", ""),
            name_width = 32,
        )
    );
    assert_eq!(line, "fps                             :   60.000000  (avg 59.500000)");
    let line = LogDiagnosticsPlugin::log_diagnostic("frame_time", "ms", "16.600000", Some("16.700000"));
    assert_eq!(line, "frame_time                      :  16.600000ms (avg 16.700000ms)");
    let line = LogDiagnosticsPlugin::log_diagnostic("entities", "", "1000.000000", None);
    assert_eq!(line, "entities                        : 1000.000000");
    let line = LogDiagnosticsPlugin::log_diagnostic("t", "s", "0.5", None);
    assert_eq!(line, format!("{:<32}: {}{}", "t", "0.5", "s"));
}

#[test]
fn log_line_leaves_long_texts_as_they_are() {
    let name = "a_name_that_is_longer_than_thirty_two_characters";
    let line = LogDiagnosticsPlugin::log_diagnostic(name, "", "123456789012345", Some("1"));
    assert_eq!(
        line,
        "a_name_that_is_longer_than_thirty_two_characters: 123456789012345  (avg 1)"
    );
    // widths count characters, not bytes
    let line = LogDiagnosticsPlugin::log_diagnostic("\u{e9}t\u{e9}", "\u{b5}s", "1", Some("2"));
    assert_eq!(
        line,
        format!("{:<32}: {:>12} (avg {})", "\u{e9}t\u{e9}", "1\u{b5}s", "2\u{b5}s")
    );
}
