use bs_filter::consts::{SOL_SOCKET, SO_ATTACH_BPF, SO_ATTACH_FILTER};
use bs_filter::cbpf::SocketFilterProgram;
use bs_filter::ebpf::SocketFilterFd;
use bs_filter::system::{cvt, IsMinusOne, Level, Name, SocketOption, SystemError};

#[test]
fn cvt_passes_a_value_on() {
    assert_eq!(cvt(3i32, 9), Ok(3));
    assert_eq!(cvt(0i64, 9), Ok(0));
    assert_eq!(cvt(-2i8, 9), Ok(-2));
}

#[test]
fn cvt_turns_minus_one_into_the_error() {
    assert_eq!(cvt(-1i32, 9), Err(SystemError(9)));
    assert_eq!(cvt(-1isize, 11), Err(SystemError(11)));
    assert_eq!(cvt(-1i16, 0), Err(SystemError(0)));
}

#[test]
fn is_minus_one_on_every_width() {
    assert!((-1i8).is_minus_one());
    assert!((-1i16).is_minus_one());
    assert!((-1i32).is_minus_one());
    assert!((-1i64).is_minus_one());
    assert!((-1isize).is_minus_one());
    assert!(!0i8.is_minus_one());
    assert!(!1i16.is_minus_one());
    assert!(!i32::MIN.is_minus_one());
    assert!(!i64::MAX.is_minus_one());
    assert!(!(-2isize).is_minus_one());
}

#[test]
fn option_names_and_level() {
    assert_eq!(Name::AttachFilter.code(), 26);
    assert_eq!(Name::AttachBpf.code(), 50);
    assert_eq!(Level::Socket.code(), 1);
    assert_eq!(SOL_SOCKET, libc::SOL_SOCKET);
    assert_eq!(SO_ATTACH_FILTER, libc::SO_ATTACH_FILTER);
    assert_eq!(SO_ATTACH_BPF, libc::SO_ATTACH_BPF);
}

#[test]
fn attachables_name_their_option() {
    assert_eq!(<SocketFilterProgram as SocketOption>::level(), Level::Socket);
    assert_eq!(<SocketFilterProgram as SocketOption>::name(), Name::AttachFilter);
    assert_eq!(<SocketFilterFd as SocketOption>::level(), Level::Socket);
    assert_eq!(<SocketFilterFd as SocketOption>::name(), Name::AttachBpf);
    assert_eq!(<SocketFilterProgram as SocketOption>::name().code(), 26);
    assert_eq!(<SocketFilterFd as SocketOption>::name().code(), 50);
}
