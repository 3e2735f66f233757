use cameleon::emulator::device::{
    nanos_after_restart, nanos_of_elapsed, DeviceControl, ShutdownAction,
};
use cameleon::emulator::stream_module::{StreamAction, StreamModule, StreamSignal};

#[test]
fn stream_module_follows_its_signals() {
    let mut module = StreamModule::new();
    assert!(!module.enabled);
    assert_eq!(
        module.on_signal(StreamSignal::Disable),
        StreamAction::WarnAlreadyDisabled
    );
    assert!(!module.enabled);
    assert_eq!(
        module.on_signal(StreamSignal::Enable),
        StreamAction::ReportEnabled
    );
    assert!(module.enabled);
    assert_eq!(
        module.on_signal(StreamSignal::Enable),
        StreamAction::WarnAlreadyEnabled
    );
    assert!(module.enabled);
    assert_eq!(module.on_signal(StreamSignal::Shutdown), StreamAction::Stop);
    assert!(module.enabled);
    assert_eq!(
        module.on_signal(StreamSignal::Disable),
        StreamAction::ReportDisabled
    );
    assert!(!module.enabled);
    assert_eq!(module.on_signal(StreamSignal::Shutdown), StreamAction::Stop);
    assert!(!module.enabled);
}

#[test]
fn device_is_shut_down_once() {
    let mut control = DeviceControl::new();
    assert!(!control.running);
    assert_eq!(control.shutdown(), ShutdownAction::Nothing);
    assert!(!control.run());
    assert!(control.running);
    assert!(control.run());
    assert_eq!(control.shutdown(), ShutdownAction::SignalAndWait);
    assert!(!control.running);
    assert_eq!(control.shutdown(), ShutdownAction::Nothing);
}

#[test]
fn timestamp_starts_anew_beyond_64_bits() {
    assert_eq!(nanos_of_elapsed(0), Some(0));
    assert_eq!(nanos_of_elapsed(1_000_000_007), Some(1_000_000_007));
    assert_eq!(nanos_of_elapsed(u64::MAX as u128), Some(u64::MAX));
    assert_eq!(nanos_of_elapsed(u64::MAX as u128 + 1), None);
    assert_eq!(nanos_of_elapsed(u128::MAX), None);
    assert_eq!(nanos_after_restart(5), 5);
    assert_eq!(nanos_after_restart((1u128 << 64) + 9), 9);
}
