use roboplc::error::Error;
use roboplc::serial::{parse_path, BaudRate, CharSize, Parity, StopBits};

#[test]
fn serial_path_parses() {
    let p = parse_path("/dev/ttyS0:9600:8:N:1").unwrap();
    assert_eq!(p.port_dev, "/dev/ttyS0");
    assert_eq!(p.baud_rate, BaudRate::Baud9600);
    assert_eq!(p.char_size, CharSize::Bits8);
    assert_eq!(p.parity, Parity::ParityNone);
    assert_eq!(p.stop_bits, StopBits::Stop1);
    let p = parse_path("/dev/ttyUSB1:115200:7:E:2:extra").unwrap();
    assert_eq!(p.port_dev, "/dev/ttyUSB1");
    assert_eq!(p.baud_rate, BaudRate::Baud115200);
    assert_eq!(p.char_size, CharSize::Bits7);
    assert_eq!(p.parity, Parity::ParityEven);
    assert_eq!(p.stop_bits, StopBits::Stop2);
}

#[test]
fn serial_path_errors() {
    for bad in [
        "/dev/ttyS0",
        "/dev/ttyS0:9600",
        "/dev/ttyS0:9600:8",
        "/dev/ttyS0:9600:8:N",
        "/dev/ttyS0:9601:8:N:1",
        "/dev/ttyS0:09600:8:N:1",
        "/dev/ttyS0:9600:9:N:1",
        "/dev/ttyS0:9600:8:X:1",
        "/dev/ttyS0:9600:8:N:3",
        "/dev/ttyS0::8:N:1",
    ] {
        assert!(matches!(parse_path(bad), Err(Error::InvalidData(_))), "{}", bad);
    }
}

#[test]
fn serial_path_non_ascii_device() {
    let p = parse_path("/dev/ü:300:5:O:1").unwrap();
    assert_eq!(p.port_dev, "/dev/ü");
    assert_eq!(p.baud_rate, BaudRate::Baud300);
    assert_eq!(p.char_size, CharSize::Bits5);
    assert_eq!(p.parity, Parity::ParityOdd);
}
