use blazebee::config::logger::{ConsoleConfig, JournaldConfig, LoggerConfig};
use blazebee::logger::{console_wanted, journald_wanted, plan_outputs, LogOutputs, LoggerFailure};

fn config(console: Option<bool>, journald: Option<bool>) -> LoggerConfig {
    let mut c = LoggerConfig::default();
    c.console = console.map(|on| ConsoleConfig { enabled: on, ..ConsoleConfig::default() });
    c.journald = journald.map(|on| JournaldConfig { enabled: on, ..JournaldConfig::default() });
    c
}

#[test]
fn outputs_follow_the_configuration() {
    let c = LoggerConfig::default();
    assert!(console_wanted(&c));
    assert!(!journald_wanted(&c));
    assert_eq!(plan_outputs(&c, false), Ok(LogOutputs { console: true, journald: false }));
    assert_eq!(
        plan_outputs(&config(Some(true), Some(true)), true),
        Ok(LogOutputs { console: true, journald: true })
    );
    assert_eq!(
        plan_outputs(&config(None, Some(true)), true),
        Ok(LogOutputs { console: false, journald: true })
    );
}

#[test]
fn journal_failure_with_console_falls_back_to_console() {
    assert_eq!(
        plan_outputs(&config(Some(true), Some(true)), false),
        Ok(LogOutputs { console: true, journald: false })
    );
}

#[test]
fn no_output_is_an_error() {
    assert_eq!(plan_outputs(&config(Some(false), Some(false)), true), Err(LoggerFailure::NoLayersConfigured));
    assert_eq!(plan_outputs(&config(None, None), false), Err(LoggerFailure::NoLayersConfigured));
    assert_eq!(plan_outputs(&config(Some(false), Some(true)), false), Err(LoggerFailure::NoLayersConfigured));
}
