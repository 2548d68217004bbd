use svdgen::ident::{
    check_collisions, reserved, same_bytes, sanitize, to_sanitized_snake_case,
    to_sanitized_upper_case,
};
use svdgen::model::Error;
use svdgen::text::{decimal, hex, upper_case};

#[test]
fn snake_case_lowers_and_joins() {
    assert_eq!(to_sanitized_snake_case(b"UART0"), b"uart0".to_vec());
    assert_eq!(to_sanitized_snake_case(b"GPIO-A  port"), b"gpio_a_port".to_vec());
    assert_eq!(to_sanitized_snake_case(b"__x__y__"), b"x_y".to_vec());
    assert_eq!(to_sanitized_snake_case(b"CR[%s]"), b"cr_s".to_vec());
}

#[test]
fn upper_case_raises_and_joins() {
    assert_eq!(to_sanitized_upper_case(b"uart0"), b"UART0".to_vec());
    assert_eq!(to_sanitized_upper_case(b"gpio.a"), b"GPIO_A".to_vec());
    assert_eq!(to_sanitized_upper_case(b" spi "), b"SPI".to_vec());
}

#[test]
fn leading_digit_gets_underscore() {
    assert_eq!(to_sanitized_snake_case(b"1wire"), b"_1wire".to_vec());
    assert_eq!(to_sanitized_upper_case(b"--2nd"), b"_2ND".to_vec());
}

#[test]
fn reserved_word_gets_underscore() {
    assert_eq!(to_sanitized_snake_case(b"fn"), b"_fn".to_vec());
    assert_eq!(to_sanitized_snake_case(b"MATCH"), b"_match".to_vec());
    assert_eq!(to_sanitized_snake_case(b"In"), b"_in".to_vec());
    assert_eq!(to_sanitized_upper_case(b"fn"), b"FN".to_vec());
    assert_eq!(to_sanitized_snake_case(b"fnx"), b"fnx".to_vec());
}

#[test]
fn empty_and_separator_only_names() {
    assert_eq!(to_sanitized_snake_case(b""), Vec::<u8>::new());
    assert_eq!(to_sanitized_snake_case(b"---"), Vec::<u8>::new());
}

#[test]
fn sanitize_twice_is_sanitize_once() {
    let names: [&[u8]; 8] = [b"UART0", b"GPIO-A  port", b"1wire", b"fn", b"__x__y__", b"", b"_1_", b"Self"];
    for name in names {
        for up in [false, true] {
            let once = sanitize(name, up);
            let twice = sanitize(&once, up);
            assert_eq!(twice, once);
        }
    }
}

#[test]
fn reserved_words_are_recognised() {
    assert!(reserved(b"loop"));
    assert!(reserved(b"yield"));
    assert!(reserved(b"abstract"));
    assert!(!reserved(b"uart"));
    assert!(!reserved(b"LOOP"));
    assert!(!reserved(b""));
}

#[test]
fn same_bytes_compares_contents() {
    assert!(same_bytes(b"abc", b"abc"));
    assert!(!same_bytes(b"abc", b"abd"));
    assert!(!same_bytes(b"abc", b"ab"));
    assert!(same_bytes(b"", b""));
}

#[test]
fn collisions_are_found() {
    let names = vec![b"TIMER".to_vec(), b"UART-0".to_vec(), b"uart_0".to_vec()];
    assert_eq!(check_collisions(&names, false), Err(Error::Collision(1, 2)));
    assert_eq!(check_collisions(&names, true), Err(Error::Collision(1, 2)));
    let names = vec![b"TIMER".to_vec(), b"UART0".to_vec(), b"UART1".to_vec()];
    assert_eq!(check_collisions(&names, false), Ok(()));
}

#[test]
fn upper_case_keeps_other_bytes() {
    assert_eq!(upper_case(b"nvic-1z"), b"NVIC-1Z".to_vec());
    assert_eq!(upper_case(b""), Vec::<u8>::new());
}

#[test]
fn decimal_digits() {
    assert_eq!(decimal(0), b"0".to_vec());
    assert_eq!(decimal(9), b"9".to_vec());
    assert_eq!(decimal(10), b"10".to_vec());
    assert_eq!(decimal(4096), b"4096".to_vec());
    assert_eq!(decimal(u64::MAX), b"18446744073709551615".to_vec());
}

#[test]
fn hex_literals() {
    assert_eq!(hex(0), b"0x0".to_vec());
    assert_eq!(hex(0x1f), b"0x1f".to_vec());
    assert_eq!(hex(0x100), b"0x100".to_vec());
    assert_eq!(hex(0xdead_beef), b"0xdeadbeef".to_vec());
    assert_eq!(hex(u64::MAX), b"0xffffffffffffffff".to_vec());
}
