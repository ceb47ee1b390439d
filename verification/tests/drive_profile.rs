//! Drive profile, process image and working counter.
use motion_daemon::ethercat::cia402::{
    decode_statusword, Cia402, State, CW_DISABLE_VOLTAGE, CW_ENABLE_OPERATION, CW_FAULT_RESET,
    CW_SHUTDOWN, CW_SWITCH_ON,
};
use motion_daemon::ethercat::pdo::{
    decode_tx, encode_rx, tx_bytes, TxPdo, DIN_HOME_SWITCH, DIN_POS_LIMIT, RX_BYTES, RX_MAPPING,
    TX_BYTES_BASE, TX_BYTES_DIN, TX_MAPPING_BASE, TX_MAPPING_DIN,
};
use motion_daemon::ethercat::wkc::{WkcMonitor, WkcVerdict};
use motion_daemon::fieldbus::DriveStatus;

const SW_SWITCH_ON_DISABLED: u16 = 0x0640;
const SW_READY_TO_SWITCH_ON: u16 = 0x0231;
const SW_SWITCHED_ON: u16 = 0x0233;
const SW_OPERATION_ENABLED: u16 = 0x0237;
const SW_QUICK_STOP_ACTIVE: u16 = 0x0207;
const SW_FAULT: u16 = 0x0208;
const SW_FAULT_REACTION: u16 = 0x020F;
const SW_NOT_READY: u16 = 0x0200;

#[test]
fn decode_matches_mask_table() {
    assert_eq!(decode_statusword(SW_SWITCH_ON_DISABLED), State::SwitchOnDisabled);
    assert_eq!(decode_statusword(SW_READY_TO_SWITCH_ON), State::ReadyToSwitchOn);
    assert_eq!(decode_statusword(SW_SWITCHED_ON), State::SwitchedOn);
    assert_eq!(decode_statusword(SW_OPERATION_ENABLED), State::OperationEnabled);
    assert_eq!(decode_statusword(SW_QUICK_STOP_ACTIVE), State::QuickStopActive);
    assert_eq!(decode_statusword(SW_FAULT), State::Fault);
    assert_eq!(decode_statusword(SW_FAULT_REACTION), State::FaultReactionActive);
    assert_eq!(decode_statusword(SW_NOT_READY), State::NotReadyToSwitchOn);
}

#[test]
fn enable_sequence_walks_the_chain() {
    let mut seq = Cia402::default();
    assert_eq!(seq.controlword(true, false, SW_SWITCH_ON_DISABLED), CW_SHUTDOWN);
    assert_eq!(seq.controlword(true, false, SW_READY_TO_SWITCH_ON), CW_SWITCH_ON);
    assert_eq!(seq.controlword(true, false, SW_SWITCHED_ON), CW_ENABLE_OPERATION);
    assert_eq!(seq.controlword(true, false, SW_OPERATION_ENABLED), CW_ENABLE_OPERATION);
}

#[test]
fn disable_ramps_down_and_parks_ready() {
    let mut seq = Cia402::default();
    assert_eq!(seq.controlword(false, false, SW_OPERATION_ENABLED), CW_SHUTDOWN);
    assert_eq!(seq.controlword(false, false, SW_SWITCHED_ON), CW_SHUTDOWN);
    assert_eq!(seq.controlword(false, false, SW_READY_TO_SWITCH_ON), CW_SHUTDOWN);
}

#[test]
fn fault_reset_is_edge_generated() {
    let mut seq = Cia402::default();
    assert_eq!(seq.controlword(true, true, SW_FAULT), CW_FAULT_RESET);
    // held request: no second edge
    assert_eq!(seq.controlword(true, true, SW_FAULT), CW_DISABLE_VOLTAGE);
    assert_eq!(seq.controlword(true, true, SW_FAULT), CW_DISABLE_VOLTAGE);
    // release re-arms
    assert_eq!(seq.controlword(true, false, SW_FAULT), CW_DISABLE_VOLTAGE);
    assert_eq!(seq.controlword(true, true, SW_FAULT), CW_FAULT_RESET);
}

#[test]
fn fault_reaction_is_left_alone() {
    let mut seq = Cia402::default();
    assert_eq!(seq.controlword(true, true, SW_FAULT_REACTION), CW_DISABLE_VOLTAGE);
}

#[test]
fn drive_status_mapping() {
    assert_eq!(Cia402::drive_status(true, SW_OPERATION_ENABLED), DriveStatus::Enabled);
    assert_eq!(Cia402::drive_status(true, SW_QUICK_STOP_ACTIVE), DriveStatus::QuickStop);
    assert_eq!(Cia402::drive_status(true, SW_FAULT), DriveStatus::Fault);
    assert_eq!(Cia402::drive_status(true, SW_SWITCHED_ON), DriveStatus::Enabling);
    assert_eq!(Cia402::drive_status(false, SW_SWITCHED_ON), DriveStatus::Disabled);
    assert_eq!(Cia402::drive_status(false, SW_SWITCH_ON_DISABLED), DriveStatus::Disabled);
}

#[test]
fn every_statusword_shows_one_state() {
    // Of the bits outside the mask none counts.
    for sw in [0x0027u16, 0xFFB7 & !0x0048, 0x0437] {
        assert_eq!(decode_statusword(sw), State::OperationEnabled);
    }
    assert_eq!(decode_statusword(0xFFFF), State::NotReadyToSwitchOn);
    assert_eq!(decode_statusword(0x0000), State::NotReadyToSwitchOn);
}

#[test]
fn a_disabled_axis_is_never_told_to_enable() {
    for sw in [
        SW_SWITCH_ON_DISABLED,
        SW_READY_TO_SWITCH_ON,
        SW_SWITCHED_ON,
        SW_OPERATION_ENABLED,
        SW_QUICK_STOP_ACTIVE,
        SW_FAULT,
        SW_FAULT_REACTION,
        SW_NOT_READY,
    ] {
        let mut seq = Cia402::default();
        let cw = seq.controlword(false, false, sw);
        assert_ne!(cw, CW_ENABLE_OPERATION);
        assert_ne!(cw, CW_SWITCH_ON);
    }
}

#[test]
fn rx_round_trip_bytes() {
    let mut buf = [0u8; RX_BYTES];
    encode_rx(&mut buf, 0x000F, -123_456);
    assert_eq!(buf[0..2], 0x000Fu16.to_le_bytes());
    assert_eq!(i32::from_le_bytes([buf[2], buf[3], buf[4], buf[5]]), -123_456);
}

#[test]
fn outputs_leave_the_rest_of_the_image() {
    let mut buf = [0xAAu8; 9];
    encode_rx(&mut buf, 0x1234, i32::MIN);
    assert_eq!(buf, [0x34, 0x12, 0, 0, 0, 0x80, 0xAA, 0xAA, 0xAA]);
}

#[test]
fn tx_decode_with_and_without_din() {
    let mut buf = [0u8; TX_BYTES_DIN];
    buf[0..2].copy_from_slice(&0x0237u16.to_le_bytes());
    buf[2..6].copy_from_slice(&987_654i32.to_le_bytes());
    buf[6..10].copy_from_slice(&(-42_000i32).to_le_bytes());
    buf[10..14].copy_from_slice(&(DIN_POS_LIMIT | DIN_HOME_SWITCH).to_le_bytes());

    let full = decode_tx(&buf, true);
    assert_eq!(
        full,
        TxPdo {
            statusword: 0x0237,
            position: 987_654,
            velocity: -42_000,
            digital_inputs: DIN_POS_LIMIT | DIN_HOME_SWITCH,
        }
    );

    let base = decode_tx(&buf[..TX_BYTES_BASE], false);
    assert_eq!(base.digital_inputs, 0);
    assert_eq!(base.position, 987_654);
}

#[test]
fn mapping_entries_encode_index_sub_bits() {
    assert_eq!(RX_MAPPING[0] >> 16, 0x6040);
    assert_eq!(RX_MAPPING[0] & 0xFF, 16);
    assert_eq!(TX_MAPPING_DIN >> 16, 0x60FD);
    assert_eq!(TX_MAPPING_DIN & 0xFF, 32);
    // region sizes match the mapping bit sums
    let rx_bits: u32 = RX_MAPPING.iter().map(|e| e & 0xFF).sum();
    assert_eq!(rx_bits as usize / 8, RX_BYTES);
    let tx_bits: u32 = TX_MAPPING_BASE.iter().map(|e| e & 0xFF).sum();
    assert_eq!(tx_bits as usize / 8, TX_BYTES_BASE);
    assert_eq!((tx_bits + (TX_MAPPING_DIN & 0xFF)) as usize / 8, TX_BYTES_DIN);
    assert_eq!(tx_bytes(true), 14);
    assert_eq!(tx_bytes(false), 10);
}

const OK: WkcVerdict = WkcVerdict { ok: true, edge: false };

#[test]
fn passes_everything_before_learning() {
    let mut m = WkcMonitor::default();
    assert_eq!(m.check(0), OK);
    assert_eq!(m.check(7), OK);
    assert_eq!(m.expected(), None);
}

#[test]
fn learns_only_when_all_op_and_only_once() {
    let mut m = WkcMonitor::default();
    m.learn(false, 1); // still transitioning: partial counter, ignore
    assert_eq!(m.expected(), None);
    m.learn(true, 3);
    assert_eq!(m.expected(), Some(3));
    m.learn(true, 6); // later cycles never overwrite the reference
    assert_eq!(m.expected(), Some(3));
}

#[test]
fn mismatch_and_recovery_each_report_one_edge() {
    let mut m = WkcMonitor::default();
    m.learn(true, 6);
    assert_eq!(m.check(6), OK);
    // tail node gone: first bad cycle is the edge, the rest are not
    assert_eq!(m.check(3), WkcVerdict { ok: false, edge: true });
    assert_eq!(m.check(3), WkcVerdict { ok: false, edge: false });
    assert_eq!(m.check(0), WkcVerdict { ok: false, edge: false });
    // plugged back in
    assert_eq!(m.check(6), WkcVerdict { ok: true, edge: true });
    assert_eq!(m.check(6), OK);
}

#[test]
fn higher_than_expected_is_also_a_mismatch() {
    let mut m = WkcMonitor::default();
    m.learn(true, 3);
    assert!(!m.check(6).ok);
}
